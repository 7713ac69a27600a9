//! The graph config schema, and everything about a graph that can be checked
//! without launching it.
//!
//! Paths are kept as the text a document wrote them in, and a block of named
//! values as a list in ascending order of its names.

use vstd::prelude::*;

pub use crate::validation::{command_judge_refusal, validate};

use crate::event::EventFilter;
use crate::keyed::{get, ordered, value_at};
use crate::text::{holds_character, is_plain_name, plain_name};

verus! {

/// A reference to another config file: a filesystem path, or an `https` URL.
#[derive(Debug, PartialEq, Eq)]
pub struct ConfigRef(pub String);

/// One graph.
#[derive(Debug, PartialEq, Eq)]
pub struct GraphConfig {
    /// Schema version.
    pub version: u32,
    /// The graph's name.
    pub name: String,
    /// Exported to every member process, by name.
    pub env: Vec<(String, String)>,
    /// The directory this graph's own persona catalog sits in. Requires graph
    /// schema version [`FIRST_PERSONA_CATALOG_VERSION`].
    pub personas: Option<String>,
    /// What this graph's run puts on its merged event stream. Requires graph
    /// schema version [`FIRST_EVENT_FILTER_VERSION`].
    pub events: Option<Events>,
    /// The members, by name.
    pub members: Vec<(String, Member)>,
}

/// A graph's own say over its merged event stream.
#[derive(Debug, PartialEq, Eq)]
pub struct Events {
    /// Which envelopes reach the stream; absent is all of them.
    pub filter: Option<EventFilter>,
}

impl Default for Events {
    fn default() -> (events: Self)
        ensures
            events.filter is None,
    {
        Events { filter: None }
    }
}

/// A graph member: either a two-party onejudge conversation, or a single-sided
/// oneharness agent.
#[derive(Debug, PartialEq, Eq)]
pub enum Member {
    /// Two-party: an agent and a judge.
    Onejudge(OnejudgeMember),
    /// Single-sided: one agent, no judge.
    Oneharness(OneharnessMember),
}

/// A `kind: onejudge` member.
#[derive(Debug, PartialEq, Eq)]
pub struct OnejudgeMember {
    /// The onejudge base config, by path or URL.
    pub base_config: ConfigRef,
    /// The persona delta, by path or URL.
    pub persona: Option<ConfigRef>,
    /// The task prose. Usually supplied by `--task` instead.
    pub task: Option<String>,
    /// The side that does the work.
    pub agent: AgentSide,
    /// The sides that supervise: the judge panel.
    pub judge: Vec<JudgeSide>,
    /// onejudge approval mode.
    pub mode: String,
    /// Turn ceiling for the conversation.
    pub max_turns: Option<u32>,
    /// The conversation's worktree, when this member's job is not the graph's.
    /// Requires graph schema version [`FIRST_TWO_PARTY_JOB_VERSION`].
    pub dir: Option<String>,
    /// The pace this member's one conversation runs at, when it is paced.
    /// Requires graph schema version [`FIRST_TWO_PARTY_JOB_VERSION`].
    pub schedule: Option<Schedule>,
    /// Whether this member holds the run open. Requires graph schema version
    /// [`FIRST_BACKGROUND_VERSION`].
    pub background: Option<bool>,
    /// Members whose successful settle precedes this member's first run.
    pub deps: Vec<String>,
}

/// A `kind: oneharness` member.
#[derive(Debug, PartialEq, Eq)]
pub struct OneharnessMember {
    /// The oneharness config, by path or URL.
    pub oneharness_config: ConfigRef,
    /// The persona delta, by path or URL.
    pub persona: Option<ConfigRef>,
    /// The task prose. Requires graph schema version
    /// [`FIRST_MEMBER_JOB_VERSION`].
    pub task: Option<String>,
    /// The directory this member works in, when its job is not the graph's.
    /// Requires graph schema version [`FIRST_MEMBER_JOB_VERSION`].
    pub dir: Option<String>,
    /// Present on a cron member.
    pub schedule: Option<Schedule>,
    /// Whether this member holds the run open. Requires graph schema version
    /// [`FIRST_BACKGROUND_VERSION`].
    pub background: Option<bool>,
    /// Commands run immediately before each of this member's turns. Requires
    /// graph schema version [`FIRST_PRE_TURN_VERSION`].
    pub pre_turn: Vec<PreTurn>,
    /// Members whose successful settle precedes this member's first run.
    pub deps: Vec<String>,
}

/// One command run immediately before a member's turn, whose output becomes part
/// of that turn's context.
///
/// An argv, never a command line: what a member declares here is spawned
/// directly.
#[derive(Debug, PartialEq, Eq)]
pub struct PreTurn {
    /// The program and its arguments.
    pub command: Vec<String>,
    /// What this view is called, in the turn's context and on the stream.
    pub label: Option<String>,
    /// How many seconds this command may take before the turn goes on without
    /// it. [`DEFAULT_PRE_TURN_SECONDS`] when it names none.
    pub timeout: Option<u64>,
}

/// The agent side of a onejudge member.
#[derive(Debug, PartialEq, Eq)]
pub struct AgentSide {
    /// The oneharness config for this side, by path or URL.
    pub oneharness_config: ConfigRef,
    /// Optional model override, which must be paired with a config whose declared
    /// chain is one harness family.
    pub model: Option<String>,
    /// Whether the side's turns stream as they happen. `false` is report-only.
    pub stream: bool,
}

/// One judge of a onejudge member's panel: an oneharness identity chain, an
/// `llmlint` run, or a command provider.
#[derive(Debug, PartialEq, Eq)]
pub enum JudgeSide {
    /// Supervised by a harness selected from an oneharness config.
    Harness(JudgeHarness),
    /// Supervised by one `llmlint` run over the worker's tree.
    Llmlint(JudgeLlmlint),
    /// Supervised by a command provider.
    Command(JudgeCommand),
}

/// The harness-backed judge side.
#[derive(Debug, PartialEq, Eq)]
pub struct JudgeHarness {
    /// The oneharness config for this side, by path or URL.
    pub oneharness_config: ConfigRef,
    /// Optional model override, under the same pairing rule as
    /// [`AgentSide::model`].
    pub model: Option<String>,
    /// This judge's name on every surface onejudge attributes to it.
    pub label: Option<String>,
}

/// The `llmlint` judge side: one lint run over the worker's tree per decision.
#[derive(Debug, PartialEq, Eq)]
pub struct JudgeLlmlint {
    /// The shape's own tag, which is what tells it from the other two.
    pub kind: LlmlintKind,
    /// The llmlint config file, relative to the graph document.
    pub config: Option<String>,
    /// The llmlint executable.
    pub bin: Option<String>,
    /// The git revision to review the worker's changes against.
    pub diff_base: Option<String>,
    /// Extra arguments appended to every `llmlint lint` run.
    pub args: Vec<String>,
    /// This judge's name, as on [`JudgeHarness::label`].
    pub label: Option<String>,
}

/// The one value [`JudgeLlmlint::kind`] takes.
#[derive(Debug, Clone, Copy, PartialEq, Eq, Structural)]
pub enum LlmlintKind {
    /// `kind: llmlint`.
    Llmlint,
}

/// The command-provider judge side.
#[derive(Debug, PartialEq, Eq)]
pub struct JudgeCommand {
    /// The command and its arguments.
    pub command: Vec<String>,
    /// This judge's name, as on [`JudgeHarness::label`].
    pub label: Option<String>,
}

/// A member's schedule.
#[derive(Debug, Clone, Copy, PartialEq, Eq, Structural)]
pub struct Schedule {
    /// Interval in seconds.
    pub every: u64,
    /// Seconds before this member's first turn, read through
    /// [`first_turn_after`](Self::first_turn_after). Requires graph schema version
    /// [`FIRST_START_AFTER_VERSION`].
    pub start_after: Option<u64>,
    /// Whether `reset-timer` may restart this schedule's clock.
    pub resettable: bool,
}

/// The longest span a [`Schedule`] may name, in seconds: a shade over 136 years.
pub const MAX_SCHEDULE_SECONDS: u64 = 4_294_967_295;

/// How long a [`PreTurn`] command that names no `timeout` may run.
pub const DEFAULT_PRE_TURN_SECONDS: u64 = 30;

/// The longest a [`PreTurn`] command may be given, whatever it names.
pub const MAX_PRE_TURN_SECONDS: u64 = 300;

/// How many [`PreTurn`] commands one member may declare.
pub const MAX_PRE_TURN_COMMANDS: usize = 4;

/// The first graph schema version this library still reads.
pub const FIRST_SCHEMA_VERSION: u32 = 1;

/// The latest graph schema version this library reads.
pub const SCHEMA_VERSION: u32 = 9;

/// The first graph schema version in which a onejudge member may name `deps`.
pub const FIRST_TWO_PARTY_DEPS_VERSION: u32 = 2;

/// The first graph schema version in which a single-sided member may carry its
/// own `task` and `dir`.
pub const FIRST_MEMBER_JOB_VERSION: u32 = 3;

/// The first graph schema version in which a [`Schedule`] may name a
/// `start_after`, and from which one that names none waits a whole interval before
/// its first turn.
pub const FIRST_START_AFTER_VERSION: u32 = 4;

/// The first graph schema version in which `{task}` in a member's own task
/// expands to the run's.
pub const FIRST_TASK_TOKEN_VERSION: u32 = 4;

/// The first graph schema version in which a graph may name an `events` block.
pub const FIRST_EVENT_FILTER_VERSION: u32 = 5;

/// The first graph schema version in which a graph may name its own `personas`
/// catalog.
pub const FIRST_PERSONA_CATALOG_VERSION: u32 = 6;

/// The first graph schema version in which a single-sided member may declare
/// `pre_turn` commands.
pub const FIRST_PRE_TURN_VERSION: u32 = 7;

/// The first graph schema version in which a member may declare `background`, and
/// from which one that declares none is background exactly when it carries a
/// schedule.
pub const FIRST_BACKGROUND_VERSION: u32 = 8;

/// The first graph schema version in which a two-party member may carry its own
/// `dir` and `schedule`.
pub const FIRST_TWO_PARTY_JOB_VERSION: u32 = 9;

/// How a member's own `task` is read: as the prose it has always been, or as a
/// template naming the run's task.
#[derive(Debug, Clone, Copy, PartialEq, Eq, Structural)]
pub enum TaskText {
    /// Every character of it is what the member is given.
    Literal,
    /// `{task}` in it expands to the run's own task, and `{{task}}` is the
    /// literal text `{task}`.
    Template,
}

impl TaskText {
    /// What a document declaring `schema` means by a member's `task`.
    pub fn under(schema: u32) -> (reading: Self)
        ensures
            reading == if schema >= FIRST_TASK_TOKEN_VERSION {
                TaskText::Template
            } else {
                TaskText::Literal
            },
    {
        if schema >= FIRST_TASK_TOKEN_VERSION {
            TaskText::Template
        } else {
            TaskText::Literal
        }
    }
}

impl Member {
    /// The members a member waits for.
    pub open spec fn waits_for(self) -> Seq<String> {
        match self {
            Member::Onejudge(member) => member.deps@,
            Member::Oneharness(member) => member.deps@,
        }
    }

    /// A member's schedule, if it carries one.
    pub open spec fn paced(self) -> Option<Schedule> {
        match self {
            Member::Onejudge(member) => member.schedule,
            Member::Oneharness(member) => member.schedule,
        }
    }

    /// A member's own directory, if it named one.
    pub open spec fn own_directory(self) -> Option<String> {
        match self {
            Member::Onejudge(member) => member.dir,
            Member::Oneharness(member) => member.dir,
        }
    }

    /// What a member's document says about holding the run open.
    pub open spec fn declares_background(self) -> Option<bool> {
        match self {
            Member::Onejudge(member) => member.background,
            Member::Oneharness(member) => member.background,
        }
    }

    /// Members whose successful settle precedes this member's first run.
    pub fn deps(&self) -> (deps: &Vec<String>)
        ensures
            deps@ == self.waits_for(),
    {
        match self {
            Member::Onejudge(member) => &member.deps,
            Member::Oneharness(member) => &member.deps,
        }
    }

    /// This member's schedule, when it carries one.
    pub fn schedule(&self) -> (schedule: Option<Schedule>)
        ensures
            schedule == self.paced(),
    {
        match self {
            Member::Onejudge(member) => member.schedule,
            Member::Oneharness(member) => member.schedule,
        }
    }

    /// The directory this member works in, when it named one of its own.
    pub fn dir(&self) -> (dir: &Option<String>)
        ensures
            *dir == self.own_directory(),
    {
        match self {
            Member::Onejudge(member) => &member.dir,
            Member::Oneharness(member) => &member.dir,
        }
    }

    /// What this member's document says about holding the run open, if it says
    /// anything. What an omission means is [`GraphConfig::is_background`]'s.
    pub fn declared_background(&self) -> (declared: Option<bool>)
        ensures
            declared == self.declares_background(),
    {
        match self {
            Member::Onejudge(member) => member.background,
            Member::Oneharness(member) => member.background,
        }
    }
}

impl PreTurn {
    /// How long this command may run, which is what it named or the default.
    pub fn seconds(&self) -> (seconds: u64)
        ensures
            seconds == match self.timeout {
                Some(named) => named,
                None => DEFAULT_PRE_TURN_SECONDS,
            },
    {
        match self.timeout {
            Some(named) => named,
            None => DEFAULT_PRE_TURN_SECONDS,
        }
    }

    /// What a view is called.
    pub open spec fn called(self) -> Seq<char> {
        match self.label {
            Some(label) => label@,
            None => if self.command@.len() > 0 {
                self.command@[0]@
            } else {
                ""@
            },
        }
    }

    /// What this view is called: the label its author gave it, else the program.
    pub fn view(&self) -> (name: &str)
        ensures
            name@ == self.called(),
    {
        match &self.label {
            Some(label) => label.as_str(),
            None => if self.command.len() > 0 {
                self.command[0].as_str()
            } else {
                ""
            },
        }
    }
}

impl JudgeSide {
    /// The label a judge asked to be known by.
    pub open spec fn labelled(self) -> Option<String> {
        match self {
            JudgeSide::Harness(side) => side.label,
            JudgeSide::Llmlint(side) => side.label,
            JudgeSide::Command(side) => side.label,
        }
    }

    /// The provider kind onejudge knows a judge as.
    pub open spec fn provider(self) -> Seq<char> {
        match self {
            JudgeSide::Harness(_) => "oneharness"@,
            JudgeSide::Llmlint(_) => "llmlint"@,
            JudgeSide::Command(_) => "command"@,
        }
    }

    /// The label this judge asked to be known by, whatever its shape.
    pub fn label(&self) -> (label: &Option<String>)
        ensures
            *label == self.labelled(),
    {
        match self {
            JudgeSide::Harness(side) => &side.label,
            JudgeSide::Llmlint(side) => &side.label,
            JudgeSide::Command(side) => &side.label,
        }
    }

    /// The provider kind onejudge knows this judge as, which is also what it
    /// defaults an unlabelled judge's label from.
    pub fn kind(&self) -> (kind: &'static str)
        ensures
            kind@ == self.provider(),
    {
        match self {
            JudgeSide::Harness(_) => "oneharness",
            JudgeSide::Llmlint(_) => "llmlint",
            JudgeSide::Command(_) => "command",
        }
    }
}

impl Schedule {
    /// Seconds between a member coming up and its first turn.
    pub open spec fn waits(self, schema: u32) -> u64 {
        match self.start_after {
            Some(seconds) => seconds,
            None => if schema >= FIRST_START_AFTER_VERSION {
                self.every
            } else {
                0
            },
        }
    }

    /// Seconds between this member coming up and its first turn, under the schema
    /// `schema` declares.
    ///
    /// A schedule naming no `start_after` waits one whole interval from
    /// [`FIRST_START_AFTER_VERSION`] on, and none under an older schema.
    pub fn first_turn_after(&self, schema: u32) -> (seconds: u64)
        ensures
            seconds == self.waits(schema),
    {
        match self.start_after {
            Some(seconds) => seconds,
            None => if schema >= FIRST_START_AFTER_VERSION {
                self.every
            } else {
                0
            },
        }
    }
}

/// Whether `name` is one a member may have.
///
/// A member's name is a path component in the run's own directory, so this is
/// the shape of one that stays there.
pub fn is_member_name(name: &str) -> (answer: bool)
    ensures
        answer == plain_name(name@),
{
    is_plain_name(name)
}

/// Whether `label` is one a judge may carry, which is the shape
/// [`is_member_name`] holds a member to.
pub fn is_judge_label(label: &str) -> (answer: bool)
    ensures
        answer == plain_name(label@),
{
    is_member_name(label)
}

/// A name made of letters, digits, hyphens and underscores holds no separator and
/// no dot, so it names one entry of the directory it is joined to and never the
/// directory itself or its parent.
pub proof fn a_member_name_stays_in_its_directory(name: Seq<char>)
    requires
        plain_name(name),
    ensures
        !holds_character(name, '/'),
        !holds_character(name, '\\'),
        !holds_character(name, '.'),
        !holds_character(name, ':'),
        !holds_character(name, '\0'),
        name.len() > 0,
{
}

// ---- Background members ----
impl GraphConfig {
    /// Whether the blocks of named values are in order.
    pub open spec fn well_formed(self) -> bool {
        ordered(self.env@) && ordered(self.members@)
    }

    /// The inference documents older than [`FIRST_BACKGROUND_VERSION`] run under,
    /// looking no further than `depth` dependencies away: a member with a
    /// schedule, or whose every dependency is such a member.
    pub open spec fn inferred(self, name: Seq<char>, depth: nat) -> bool
        decreases depth,
    {
        match value_at(self.members@, name) {
            None => false,
            Some(member) => {
                ||| member.paced() is Some
                ||| depth > 0 && member.waits_for().len() > 0 && forall|i: int|
                    0 <= i < member.waits_for().len() ==> self.inferred(
                        (#[trigger] member.waits_for()[i])@,
                        (depth - 1) as nat,
                    )
            },
        }
    }

    /// Whether a member is work the run does not stay open for.
    pub open spec fn background(self, name: Seq<char>) -> bool {
        if self.version >= FIRST_BACKGROUND_VERSION {
            match value_at(self.members@, name) {
                None => false,
                Some(member) => match member.declares_background() {
                    Some(declared) => declared,
                    None => member.paced() is Some,
                },
            }
        } else {
            self.inferred(name, self.members@.len())
        }
    }

    /// Whether the members can be numbered so that each one's dependencies come
    /// before it.
    pub open spec fn settles_in_order(self) -> bool {
        exists|rank: Map<Seq<char>, nat>| self.ranked(rank)
    }

    /// Whether `rank` numbers the members so that each one's dependencies come
    /// before it.
    pub open spec fn ranked(self, rank: Map<Seq<char>, nat>) -> bool {
        forall|i: int|
            0 <= i < self.members@.len() ==> {
                let name = (#[trigger] self.members@[i]).0@;
                &&& rank.dom().contains(name)
                &&& rank[name] < self.members@.len()
                &&& forall|j: int|
                    0 <= j < self.members@[i].1.waits_for().len() ==> {
                        let dep = (#[trigger] self.members@[i].1.waits_for()[j])@;
                        rank.dom().contains(dep) ==> rank[dep] < rank[name]
                    }
            }
    }

    /// Whether member `name` is **background** — work the run does not stay open
    /// for — rather than **foreground**, which holds the run open while it is
    /// unfinished.
    ///
    /// From [`FIRST_BACKGROUND_VERSION`] a member's own `background` is the answer
    /// when it names one, and otherwise its schedule decides. Under every older
    /// schema a member with a schedule, or whose every dependency (transitively)
    /// is such a member, is background. A name this graph has no member called is
    /// answered `false`.
    pub fn is_background(&self, name: &str) -> (answer: bool)
        ensures
            answer == self.background(name@),
    {
        let member = match get(&self.members, name) {
            Some(member) => member,
            None => return false,
        };
        if self.version >= FIRST_BACKGROUND_VERSION {
            return match member.declared_background() {
                Some(declared) => declared,
                None => member.schedule().is_some(),
            };
        }
        let at: usize = match crate::keyed::find(&self.members, name) {
            Some(at) => at,
            None => return false,
        };
        let answers = self.inferences();
        assert(self.members@[at as int].0@ == name@);
        answers[at]
    }

    /// What each member is inferred to be, by dependency depth: one round per
    /// member, each looking one dependency further than the last.
    fn inferences(&self) -> (answers: Vec<bool>)
        ensures
            answers@.len() == self.members@.len(),
            forall|i: int|
                0 <= i < answers@.len() ==> answers@[i] == self.inferred(
                    (#[trigger] self.members@[i]).0@,
                    self.members@.len(),
                ),
    {
        let mut answers = self.next_inferences(&Vec::new(), Ghost(0));
        let mut depth: usize = 0;
        while depth < self.members.len()
            invariant
                depth <= self.members@.len(),
                answers@.len() == self.members@.len(),
                forall|i: int|
                    0 <= i < answers@.len() ==> answers@[i] == self.inferred(
                        (#[trigger] self.members@[i]).0@,
                        depth as nat,
                    ),
            decreases self.members@.len() - depth,
        {
            answers = self.next_inferences(&answers, Ghost((depth + 1) as nat));
            depth = depth + 1;
        }
        answers
    }

    /// One round of [`inferences`](Self::inferences), from the round before it.
    fn next_inferences(&self, known: &Vec<bool>, depth: Ghost<nat>) -> (answers: Vec<bool>)
        requires
            depth@ > 0 ==> known@.len() == self.members@.len() && forall|i: int|
                0 <= i < known@.len() ==> known@[i] == self.inferred(
                    (#[trigger] self.members@[i]).0@,
                    (depth@ - 1) as nat,
                ),
            depth@ == 0 ==> known@.len() == 0,
        ensures
            answers@.len() == self.members@.len(),
            forall|i: int|
                0 <= i < answers@.len() ==> answers@[i] == self.inferred(
                    (#[trigger] self.members@[i]).0@,
                    depth@,
                ),
    {
        let mut answers: Vec<bool> = Vec::new();
        let mut at: usize = 0;
        while at < self.members.len()
            invariant
                depth@ > 0 ==> known@.len() == self.members@.len() && forall|i: int|
                    0 <= i < known@.len() ==> known@[i] == self.inferred(
                        (#[trigger] self.members@[i]).0@,
                        (depth@ - 1) as nat,
                    ),
                depth@ == 0 ==> known@.len() == 0,
                at <= self.members@.len(),
                answers@.len() == at,
                forall|i: int|
                    0 <= i < at ==> answers@[i] == self.inferred(
                        (#[trigger] self.members@[i]).0@,
                        depth@,
                    ),
            decreases self.members@.len() - at,
        {
            let name = &self.members[at].0;
            // The first member of that name is the one a graph has.
            let first: usize = match crate::keyed::find(&self.members, name.as_str()) {
                Some(first) => first,
                None => at,
            };
            proof {
                assert(self.members@[at as int].0@ == name@);
                assert(crate::keyed::has_name(self.members@, name@));
            }
            let member = &self.members[first].1;
            let answer = member.schedule().is_some() || self.all_known(
                member.deps(),
                known,
                depth,
            );
            answers.push(answer);
            at = at + 1;
        }
        answers
    }

    fn all_known(&self, deps: &Vec<String>, known: &Vec<bool>, depth: Ghost<nat>) -> (all: bool)
        requires
            depth@ > 0 ==> known@.len() == self.members@.len() && forall|i: int|
                0 <= i < known@.len() ==> known@[i] == self.inferred(
                    (#[trigger] self.members@[i]).0@,
                    (depth@ - 1) as nat,
                ),
            depth@ == 0 ==> known@.len() == 0,
        ensures
            self.members@.len() > 0 ==> all == (depth@ > 0 && deps@.len() > 0 && forall|i: int|
                0 <= i < deps@.len() ==> self.inferred(
                    (#[trigger] deps@[i])@,
                    (depth@ - 1) as nat,
                )),
    {
        if deps.len() == 0 || known.len() == 0 {
            return false;
        }
        let mut at: usize = 0;
        while at < deps.len()
            invariant
                depth@ > 0,
                known@.len() == self.members@.len(),
                forall|i: int|
                    0 <= i < known@.len() ==> known@[i] == self.inferred(
                        (#[trigger] self.members@[i]).0@,
                        (depth@ - 1) as nat,
                    ),
                at <= deps@.len(),
                forall|i: int|
                    0 <= i < at ==> self.inferred((#[trigger] deps@[i])@, (depth@ - 1) as nat),
            decreases deps@.len() - at,
        {
            let dep = deps[at].as_str();
            let found = crate::keyed::find(&self.members, dep);
            let inferred = match found {
                Some(place) => {
                    assert(self.members@[place as int].0@ == dep@);
                    known[place]
                },
                None => false,
            };
            if !inferred {
                assert(!self.inferred(deps@[at as int]@, (depth@ - 1) as nat));
                return false;
            }
            at = at + 1;
        }
        true
    }
}

proof fn looking_further_changes_nothing(
    graph: GraphConfig,
    rank: Map<Seq<char>, nat>,
    name: Seq<char>,
    near: nat,
    far: nat,
)
    requires
        graph.ranked(rank),
        near <= far,
        rank.dom().contains(name) ==> rank[name] <= near,
    ensures
        graph.inferred(name, near) == graph.inferred(name, far),
    decreases near,
{
    crate::keyed::place_is_the_first(graph.members@, name);
    match value_at(graph.members@, name) {
        None => {},
        Some(member) => {
            let at = crate::keyed::place(graph.members@, name);
            assert(graph.members@[at].0@ == name);
            let deps = member.waits_for();
            if near == 0 {
                if far > 0 {
                    assert forall|i: int| 0 <= i < deps.len() implies !graph.inferred(
                        (#[trigger] deps[i])@,
                        (far - 1) as nat,
                    ) by {
                        assert(deps[i] == graph.members@[at].1.waits_for()[i]);
                        a_member_has_a_rank(graph, rank, deps[i]@, (far - 1) as nat);
                    }
                    if deps.len() > 0 {
                        assert(!graph.inferred(deps[0]@, (far - 1) as nat));
                    }
                }
            } else {
                assert forall|i: int| 0 <= i < deps.len() implies graph.inferred(
                    (#[trigger] deps[i])@,
                    (near - 1) as nat,
                ) == graph.inferred(deps[i]@, (far - 1) as nat) by {
                    looking_further_changes_nothing(
                        graph,
                        rank,
                        deps[i]@,
                        (near - 1) as nat,
                        (far - 1) as nat,
                    );
                }
            }
        },
    }
}

proof fn a_member_has_a_rank(
    graph: GraphConfig,
    rank: Map<Seq<char>, nat>,
    name: Seq<char>,
    depth: nat,
)
    requires
        graph.ranked(rank),
    ensures
        graph.inferred(name, depth) ==> rank.dom().contains(name),
{
    crate::keyed::place_is_the_first(graph.members@, name);
    if value_at(graph.members@, name) is Some {
        let at = crate::keyed::place(graph.members@, name);
        assert(graph.members@[at].0@ == name);
    }
}

/// In a graph whose members can settle in order, a document older than the
/// `background` field reads as the inference says it does: a member is background
/// when it carries a schedule, or when it waits for something and everything it
/// waits for is background.
pub proof fn an_older_document_is_read_by_inference(graph: GraphConfig, name: Seq<char>)
    requires
        graph.version < FIRST_BACKGROUND_VERSION,
        graph.settles_in_order(),
    ensures
        graph.background(name) == match value_at(graph.members@, name) {
            None => false,
            Some(member) => member.paced() is Some || (member.waits_for().len() > 0 && forall|
                i: int,
            |
                0 <= i < member.waits_for().len() ==> graph.background(
                    (#[trigger] member.waits_for()[i])@,
                )),
        },
{
    let rank = choose|rank: Map<Seq<char>, nat>| graph.ranked(rank);
    let depth = graph.members@.len();
    crate::keyed::place_is_the_first(graph.members@, name);
    if let Some(member) = value_at(graph.members@, name) {
        let at = crate::keyed::place(graph.members@, name);
        assert(graph.members@[at].0@ == name);
        let deps = member.waits_for();
        assert forall|i: int| 0 <= i < deps.len() implies graph.background((#[trigger] deps[i])@)
            == graph.inferred(deps[i]@, (depth - 1) as nat) by {
            looking_further_changes_nothing(graph, rank, deps[i]@, (depth - 1) as nat, depth);
        }
    }
}

/// The declared reading and the inferred one agree on every graph that has no
/// unscheduled member downstream of nothing but schedules, when no member
/// declares otherwise.
pub proof fn the_two_readings_agree_without_work_paced_by_schedules_alone(
    older: GraphConfig,
    newer: GraphConfig,
    name: Seq<char>,
)
    requires
        older.version < FIRST_BACKGROUND_VERSION,
        newer.version >= FIRST_BACKGROUND_VERSION,
        older.members@ == newer.members@,
        forall|i: int|
            0 <= i < newer.members@.len() ==> (#[trigger] newer.members@[i]).1.declares_background() is None,
        forall|i: int|
            0 <= i < older.members@.len() && (#[trigger] older.members@[i]).1.paced() is None
                && older.members@[i].1.waits_for().len() > 0 ==> exists|j: int|
                0 <= j < older.members@[i].1.waits_for().len() && !scheduled(
                    older,
                    (#[trigger] older.members@[i].1.waits_for()[j])@,
                ),
    ensures
        older.background(name) == newer.background(name),
{
    only_schedules_are_inferred(older, name, older.members@.len());
    crate::keyed::place_is_the_first(newer.members@, name);
}

/// Whether a graph has a member of that name, and it carries a schedule.
pub open spec fn scheduled(graph: GraphConfig, name: Seq<char>) -> bool {
    value_at(graph.members@, name) matches Some(member) && member.paced() is Some
}

proof fn only_schedules_are_inferred(graph: GraphConfig, name: Seq<char>, depth: nat)
    requires
        forall|i: int|
            0 <= i < graph.members@.len() && (#[trigger] graph.members@[i]).1.paced() is None
                && graph.members@[i].1.waits_for().len() > 0 ==> exists|j: int|
                0 <= j < graph.members@[i].1.waits_for().len() && !scheduled(
                    graph,
                    (#[trigger] graph.members@[i].1.waits_for()[j])@,
                ),
    ensures
        graph.inferred(name, depth) == scheduled(graph, name),
    decreases depth,
{
    crate::keyed::place_is_the_first(graph.members@, name);
    if let Some(member) = value_at(graph.members@, name) {
        let at = crate::keyed::place(graph.members@, name);
        let deps = graph.members@[at].1.waits_for();
        if depth > 0 && member.paced() is None && deps.len() > 0 {
            let j = choose|j: int|
                0 <= j < graph.members@[at].1.waits_for().len() && !scheduled(
                    graph,
                    (#[trigger] graph.members@[at].1.waits_for()[j])@,
                );
            only_schedules_are_inferred(graph, deps[j]@, (depth - 1) as nat);
        }
    }
}

} // verus!
