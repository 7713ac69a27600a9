//! What each kind of event says.

use vstd::prelude::*;

use crate::event::{Artifact, EventKind};

verus! {

/// The payload of an [`EventKind::MemberStarted`] event.
///
/// The two runners describe different things, so the runner is a typed
/// alternation carrying its own facts. `start_after` is orthogonal to both: it is
/// present when the member came up without taking a turn.
#[derive(Debug, PartialEq, Eq)]
pub struct MemberStarted {
    /// What runs this member, and what that runner is.
    pub runner: Runner,
    /// Seconds until this member's first turn.
    pub start_after: Option<u64>,
}

/// What runs one member, and the facts that runner has.
#[derive(Debug, PartialEq, Eq)]
pub enum Runner {
    /// Driven in this process through a library.
    Library {
        /// The engine driving it.
        engine: String,
        /// The effective config it was given.
        config: String,
        /// The directory the harness works in.
        worktree: String,
    },
    /// A child process of its own.
    Process {
        /// The program spawned.
        program: String,
        /// Its arguments.
        args: Vec<String>,
        /// The directory the child runs in.
        cwd: String,
    },
}

/// Which party took a turn. The payloads carry a party by its spelling, and this
/// is the only thing that mints one.
#[derive(Debug, Clone, Copy, PartialEq, Eq, Structural)]
pub enum Party {
    /// The agent under supervision.
    Assistant,
    /// The supervisor answering it.
    User,
    /// System-level framing, if a provider surfaces it.
    System,
}

impl Party {
    /// How a party is spelled on the wire.
    pub open spec fn wire(self) -> Seq<char> {
        match self {
            Party::Assistant => "assistant"@,
            Party::User => "user"@,
            Party::System => "system"@,
        }
    }

    /// This party's spelling on the wire.
    pub fn as_str(self) -> (text: &'static str)
        ensures
            text@ == self.wire(),
    {
        match self {
            Party::Assistant => "assistant",
            Party::User => "user",
            Party::System => "system",
        }
    }
}

/// The payload of an [`EventKind::PreTurnContext`] event: what one of a member's
/// declared pre-turn commands contributed to the turn about to begin.
#[derive(Debug, PartialEq, Eq)]
pub struct PreTurnContext {
    /// What the view is called.
    pub label: String,
    /// The argv the member declared, as declared.
    pub command: Vec<String>,
    /// What became of it.
    pub outcome: PreTurnOutcome,
    /// How many bytes of it reached the turn's context.
    pub bytes: u64,
    /// Whether that output was cut.
    pub truncated: bool,
    /// Why a view that captured nothing captured nothing.
    pub detail: Option<String>,
}

/// What became of one pre-turn command.
#[derive(Debug, Clone, Copy, PartialEq, Eq, Hash, Structural)]
pub enum PreTurnOutcome {
    /// The command ran, exited `0`, and printed something.
    Captured,
    /// The command ran and exited `0` having printed nothing at all.
    Empty,
    /// The command ran and exited non-zero, or was killed by a signal.
    Failed,
    /// The command could not be started at all.
    Unspawnable,
    /// The command did not finish inside its own bound and was stopped.
    TimedOut,
}

impl PreTurnOutcome {
    /// How an outcome is spelled on the wire.
    pub open spec fn wire(self) -> Seq<char> {
        match self {
            PreTurnOutcome::Captured => "captured"@,
            PreTurnOutcome::Empty => "empty"@,
            PreTurnOutcome::Failed => "failed"@,
            PreTurnOutcome::Unspawnable => "unspawnable"@,
            PreTurnOutcome::TimedOut => "timed_out"@,
        }
    }

    /// This outcome's spelling on the wire.
    pub fn as_str(self) -> (text: &'static str)
        ensures
            text@ == self.wire(),
    {
        match self {
            PreTurnOutcome::Captured => "captured",
            PreTurnOutcome::Empty => "empty",
            PreTurnOutcome::Failed => "failed",
            PreTurnOutcome::Unspawnable => "unspawnable",
            PreTurnOutcome::TimedOut => "timed_out",
        }
    }
}

/// The payload of an [`EventKind::TurnStarted`] event: a turn beginning, and the
/// message it was given to answer.
#[derive(Debug, PartialEq, Eq)]
pub struct TurnStarted {
    /// The turn's 1-based index within this member's conversation.
    pub turn: u64,
    /// Which party is about to speak.
    pub role: String,
    /// The message this turn answers, head-bounded.
    pub instruction: String,
    /// Whether the instruction was cut to that bound.
    pub instruction_truncated: bool,
    /// When the turn began.
    pub started_at: String,
}

/// The payload of an [`EventKind::TurnMessage`] event: one party's own words for
/// one turn.
#[derive(Debug, PartialEq, Eq)]
pub struct TurnMessage {
    /// The turn this reply belongs to.
    pub turn: u64,
    /// Who is speaking.
    pub role: String,
    /// That party's own words, head-bounded.
    pub text: String,
    /// Whether the text was cut to that bound.
    pub truncated: bool,
}

/// The payload of an [`EventKind::TurnActivity`] event: one tool call, or the
/// observation that answered one.
#[derive(Debug, PartialEq, Eq)]
pub struct TurnActivity {
    /// `tool_call` or `tool_result`.
    pub kind: String,
    /// The tool's name; absent on a result, which answers a call already named.
    pub name: Option<String>,
    /// A bounded summary of the call's structured input.
    pub detail: String,
    /// Whether the summary was cut to its bound.
    pub truncated: bool,
    /// What the tool returned, tail-bounded.
    pub output: Option<String>,
    /// Whether the output was cut to its bound.
    pub output_truncated: bool,
    /// The harness's own identity for this call.
    pub tool_call_id: Option<String>,
    /// This event's position within the turn.
    pub index: u64,
}

/// The payload of an [`EventKind::TurnCompleted`] event: one turn ending, with
/// what that turn cost and the interval it ran over.
#[derive(Debug, PartialEq, Eq)]
pub struct TurnCompleted {
    /// The turn that ended.
    pub turn: u64,
    /// Who spoke.
    pub role: String,
    /// What this one turn consumed.
    pub usage: Usage,
    /// When the turn began.
    pub started_at: String,
    /// When the turn ended.
    pub finished_at: String,
}

/// What one turn consumed. Every figure is independently optional: absent means
/// the provider reported none, which is a different fact from a turn that cost
/// nothing.
#[derive(Debug, Clone, Copy, PartialEq, Eq, Structural)]
pub struct Usage {
    /// Prompt/input tokens billed, when reported.
    pub input_tokens: Option<u64>,
    /// Completion/output tokens billed, when reported.
    pub output_tokens: Option<u64>,
    /// Prompt tokens served from the provider's prompt cache, when reported.
    pub cache_read_tokens: Option<u64>,
    /// Prompt tokens written to the provider's prompt cache, when reported.
    pub cache_write_tokens: Option<u64>,
    /// Total cost in USD, when reported, as the bits of an IEEE 754 double.
    pub cost_usd_bits: Option<u64>,
}

impl Default for Usage {
    fn default() -> (usage: Self)
        ensures
            usage == no_usage(),
    {
        Usage {
            input_tokens: None,
            output_tokens: None,
            cache_read_tokens: None,
            cache_write_tokens: None,
            cost_usd_bits: None,
        }
    }
}

/// A turn whose provider reported nothing.
pub open spec fn no_usage() -> Usage {
    Usage {
        input_tokens: None,
        output_tokens: None,
        cache_read_tokens: None,
        cache_write_tokens: None,
        cost_usd_bits: None,
    }
}

/// The bits of positive infinity, the largest of the positive doubles' bits: the
/// positive doubles' are the ones from one to these.
pub const INFINITY_BITS: u64 = 0x7ff0_0000_0000_0000;

/// Whether a figure was reported and is above zero.
pub open spec fn some_tokens(tokens: Option<u64>) -> bool {
    tokens matches Some(count) && count > 0
}

/// Whether a cost was reported and is above zero.
pub open spec fn some_cost(bits: Option<u64>) -> bool {
    bits matches Some(bits) && 0 < bits <= INFINITY_BITS
}

fn any_tokens(tokens: Option<u64>) -> (found: bool)
    ensures
        found == some_tokens(tokens),
{
    match tokens {
        Some(count) => count > 0,
        None => false,
    }
}

impl Usage {
    /// Whether an accounting says the provider billed real work: any token count
    /// above zero, prompt-cache counts among them, or a cost above zero.
    pub open spec fn billed(self) -> bool {
        ||| some_tokens(self.input_tokens)
        ||| some_tokens(self.output_tokens)
        ||| some_tokens(self.cache_read_tokens)
        ||| some_tokens(self.cache_write_tokens)
        ||| some_cost(self.cost_usd_bits)
    }

    /// Whether this accounting says the provider billed real work.
    pub fn reports_billed_work(&self) -> (answer: bool)
        ensures
            answer == self.billed(),
    {
        any_tokens(self.input_tokens) || any_tokens(self.output_tokens) || any_tokens(
            self.cache_read_tokens,
        ) || any_tokens(self.cache_write_tokens) || match self.cost_usd_bits {
            Some(bits) => 0 < bits && bits <= INFINITY_BITS,
            None => false,
        }
    }
}

/// The payload of an [`EventKind::TurnInterrupted`] event.
#[derive(Debug, PartialEq, Eq)]
pub struct TurnInterrupted {
    /// The member whose turn was addressed.
    pub member: String,
    /// Whether the run took ownership of the redirection.
    pub delivered: bool,
    /// How many bytes of redirection were offered.
    pub input_bytes: u64,
    /// Why the delivery did not land; present exactly when it did not.
    pub reason: Option<String>,
}

/// The payload of an [`EventKind::FallbackAdvanced`] event.
#[derive(Debug, PartialEq, Eq)]
pub struct FallbackAdvanced {
    /// The identity the chain moved past.
    pub identity: String,
    /// oneharness's classification of why it could not run.
    pub reason: String,
    /// Which side of a two-party conversation the chain belonged to.
    pub role: Option<Role>,
    /// The turn the chain advanced on.
    pub turn: Option<u64>,
}

/// The payload of an [`EventKind::OneharnessSession`] event: where one oneharness
/// invocation's conversation was written down.
#[derive(Debug, PartialEq, Eq)]
pub struct OneharnessSession {
    /// Which side of a two-party conversation made this invocation.
    pub role: Role,
    /// The turn it was made on, within that side.
    pub turn: u64,
    /// The identity that ran it.
    pub identity: String,
    /// The harness's own continuation id.
    pub session_id: Option<String>,
    /// The oneharness history record this invocation wrote.
    pub history_id: String,
    /// The history store the record was written into.
    pub history_dir: String,
    /// The project subdirectory of that store.
    pub history_project: String,
    /// The session file's own name, without its extension.
    pub history_session: String,
}

/// Which side of a two-party conversation an event came from.
#[derive(Debug, Clone, Copy, PartialEq, Eq, Hash, Structural)]
pub enum Role {
    /// The side that does the work.
    Agent,
    /// The side that supervises it.
    Judge,
}

/// The payload of an [`EventKind::MemberDied`] event.
#[derive(Debug, PartialEq, Eq)]
pub struct MemberDied {
    /// The liveness rule that fired.
    pub rule: String,
    /// What killed the member, classified.
    pub cause: Cause,
    /// What that cause said, bounded.
    pub detail: String,
    /// Whether the detail was cut to its bound.
    pub truncated: bool,
    /// The process's exit code, when the member was a process and it exited.
    pub exit_code: Option<i32>,
    /// How the process ended; absent for a member run in this process.
    pub disposition: Option<Disposition>,
    /// The tail of the process's standard error; absent for a member run in this
    /// process.
    pub stderr_tail: Option<String>,
}

/// How a member's process ended.
#[derive(Debug, Clone, Copy, PartialEq, Eq, Hash, Structural)]
pub enum Disposition {
    /// The process exited with a code.
    Exited,
    /// The process was terminated by a signal.
    Signaled,
}

/// The classified cause of a [`MemberDied`].
#[derive(Debug, Clone, Copy, PartialEq, Eq, Hash, Structural)]
pub enum Cause {
    /// Credentials were missing or rejected.
    Auth,
    /// The provider rate-limited the call.
    RateLimit,
    /// The harness did not recognize the requested model.
    ModelNotFound,
    /// The account's quota or billing limit is exhausted.
    Quota,
    /// A transient server-side overload.
    Overloaded,
    /// The call exceeded its deadline.
    Timeout,
    /// The turn was torn down because it was cancelled.
    Cancelled,
    /// The provider process could not be started.
    Spawn,
    /// The provider ran but violated its protocol.
    Protocol,
    /// A classified failure with no more specific category.
    Other,
    /// The member's own process exited with a status of its own.
    Exited,
    /// The member's own process was terminated by a signal.
    Signaled,
    /// The member failed without any classification at all.
    Unclassified,
}

impl Cause {
    /// How a cause is spelled on the wire.
    pub open spec fn wire(self) -> Seq<char> {
        match self {
            Cause::Auth => "auth"@,
            Cause::RateLimit => "rate_limit"@,
            Cause::ModelNotFound => "model_not_found"@,
            Cause::Quota => "quota"@,
            Cause::Overloaded => "overloaded"@,
            Cause::Timeout => "timeout"@,
            Cause::Cancelled => "cancelled"@,
            Cause::Spawn => "spawn"@,
            Cause::Protocol => "protocol"@,
            Cause::Other => "other"@,
            Cause::Exited => "exited"@,
            Cause::Signaled => "signaled"@,
            Cause::Unclassified => "unclassified"@,
        }
    }

    /// This cause's spelling on the wire.
    pub fn as_str(self) -> (text: &'static str)
        ensures
            text@ == self.wire(),
    {
        match self {
            Cause::Auth => "auth",
            Cause::RateLimit => "rate_limit",
            Cause::ModelNotFound => "model_not_found",
            Cause::Quota => "quota",
            Cause::Overloaded => "overloaded",
            Cause::Timeout => "timeout",
            Cause::Cancelled => "cancelled",
            Cause::Spawn => "spawn",
            Cause::Protocol => "protocol",
            Cause::Other => "other",
            Cause::Exited => "exited",
            Cause::Signaled => "signaled",
            Cause::Unclassified => "unclassified",
        }
    }

    /// The cause onejudge classifies a failure label as.
    pub fn classify(raw: &str) -> (cause: Cause)
        ensures
            cause == classified(raw@),
    {
        classify_label(raw)
    }
}

impl From<Disposition> for Cause {
    fn from(disposition: Disposition) -> (cause: Self) {
        match disposition {
            Disposition::Exited => Cause::Exited,
            Disposition::Signaled => Cause::Signaled,
        }
    }
}

impl vstd::std_specs::convert::FromSpecImpl<Disposition> for Cause {
    open spec fn obeys_from_spec() -> bool {
        true
    }

    open spec fn from_spec(disposition: Disposition) -> Cause {
        match disposition {
            Disposition::Exited => Cause::Exited,
            Disposition::Signaled => Cause::Signaled,
        }
    }
}

/// The cause a failure label is classified as: each of onejudge's own names for a
/// category is that category, oneharness's name for an overload is the overload,
/// and any other label is a failure with no more specific category.
pub open spec fn classified(raw: Seq<char>) -> Cause {
    if raw == "auth"@ {
        Cause::Auth
    } else if raw == "rate_limit"@ {
        Cause::RateLimit
    } else if raw == "model_not_found"@ {
        Cause::ModelNotFound
    } else if raw == "quota"@ {
        Cause::Quota
    } else if raw == "overloaded"@ || raw == "server_overloaded"@ {
        Cause::Overloaded
    } else if raw == "timeout"@ {
        Cause::Timeout
    } else if raw == "cancelled"@ {
        Cause::Cancelled
    } else if raw == "spawn"@ {
        Cause::Spawn
    } else if raw == "protocol"@ {
        Cause::Protocol
    } else {
        Cause::Other
    }
}

/// `onejudge::ProviderErrorKind::classify`, one arm for each of its kinds: the
/// categories by their own names, oneharness's `server_overloaded` as the
/// overload, and any other label as `Other`.
#[verifier::external_body]
fn classify_label(raw: &str) -> (cause: Cause)
    ensures
        cause == classified(raw@),
{
    match onejudge::ProviderErrorKind::classify(raw) {
        onejudge::ProviderErrorKind::Auth => Cause::Auth,
        onejudge::ProviderErrorKind::RateLimit => Cause::RateLimit,
        onejudge::ProviderErrorKind::ModelNotFound => Cause::ModelNotFound,
        onejudge::ProviderErrorKind::Quota => Cause::Quota,
        onejudge::ProviderErrorKind::Overloaded => Cause::Overloaded,
        onejudge::ProviderErrorKind::Timeout => Cause::Timeout,
        onejudge::ProviderErrorKind::Cancelled => Cause::Cancelled,
        onejudge::ProviderErrorKind::Spawn => Cause::Spawn,
        onejudge::ProviderErrorKind::Protocol => Cause::Protocol,
        onejudge::ProviderErrorKind::Other => Cause::Other,
    }
}

/// The ten causes that are onejudge's own categories.
pub open spec fn is_category(cause: Cause) -> bool {
    !(cause is Exited) && !(cause is Signaled) && !(cause is Unclassified)
}

/// Every category onejudge classifies a provider failure as has a cause of its
/// own, under the same name: classifying a category's spelling gives it back.
pub proof fn every_category_keeps_its_name(cause: Cause)
    requires
        is_category(cause),
    ensures
        classified(cause.wire()) == cause,
{
    reveal_strlit("auth");
    reveal_strlit("rate_limit");
    reveal_strlit("model_not_found");
    reveal_strlit("quota");
    reveal_strlit("overloaded");
    reveal_strlit("timeout");
    reveal_strlit("cancelled");
    reveal_strlit("spawn");
    reveal_strlit("protocol");
    reveal_strlit("other");
    reveal_strlit("server_overloaded");
    let raw = cause.wire();
    assert("rate_limit"@[0] == 'r');
    assert("quota"@[0] == 'q');
    assert("spawn"@[0] == 's');
    match cause {
        Cause::Auth => {
            assert(raw == "auth"@);
            assert(raw[0] == 'a');
        },
        Cause::RateLimit => {
            assert(raw == "rate_limit"@);
            assert(raw[0] == 'r');
        },
        Cause::ModelNotFound => {
            assert(raw == "model_not_found"@);
            assert(raw[0] == 'm');
        },
        Cause::Quota => {
            assert(raw == "quota"@);
            assert(raw[0] == 'q');
        },
        Cause::Overloaded => {
            assert(raw == "overloaded"@);
            assert(raw[0] == 'o');
        },
        Cause::Timeout => {
            assert(raw == "timeout"@);
            assert(raw[0] == 't');
        },
        Cause::Cancelled => {
            assert(raw == "cancelled"@);
            assert(raw[0] == 'c');
        },
        Cause::Spawn => {
            assert(raw == "spawn"@);
            assert(raw[0] == 's');
        },
        Cause::Protocol => {
            assert(raw == "protocol"@);
            assert(raw[0] == 'p');
        },
        Cause::Other => {
            assert(raw == "other"@);
            assert(raw[0] == 'o');
        },
        _ => {},
    }
}

/// The payload of an [`EventKind::MemberSettled`] event: the verdict, beside the
/// report that is its artifact.
#[derive(Debug, Clone, Copy, PartialEq, Eq, Structural)]
pub struct MemberSettled {
    /// Whether the member completed its task. One that did not is told apart from
    /// one that died by having settled at all.
    pub completed: bool,
}

/// What one event carries.
#[derive(Debug, PartialEq, Eq)]
pub enum Payload {
    /// Nothing beyond its kind.
    Empty,
    /// A member coming up.
    MemberStarted(MemberStarted),
    /// A pre-turn view.
    PreTurnContext(PreTurnContext),
    /// A turn beginning.
    TurnStarted(TurnStarted),
    /// A tool event.
    TurnActivity(TurnActivity),
    /// A party's own words.
    TurnMessage(TurnMessage),
    /// A turn ending.
    TurnCompleted(TurnCompleted),
    /// A redirection.
    TurnInterrupted(TurnInterrupted),
    /// A chain moving past a candidate.
    FallbackAdvanced(FallbackAdvanced),
    /// A conversation written down.
    OneharnessSession(OneharnessSession),
    /// A death.
    MemberDied(MemberDied),
    /// A settle.
    MemberSettled(MemberSettled),
}

/// One event to emit.
#[derive(Debug, PartialEq, Eq)]
pub struct Emission {
    /// What happened.
    pub kind: EventKind,
    /// Its detail.
    pub payload: Payload,
    /// The evidence it refers to.
    pub artifacts: Vec<Artifact>,
}

} // verus!
