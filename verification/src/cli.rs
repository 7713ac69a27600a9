//! The command-line argument surface: the commands, positionals and flags, as
//! plain values. Reading them off a command line is the program's own.

use vstd::prelude::*;
use vstd::string::StringExecFns;

verus! {

/// Compose agents into a graph and merge their outputs into one event stream.
#[derive(Debug, PartialEq, Eq)]
pub struct Cli {
    /// The command to run.
    pub command: Command,
}

/// The top-level commands.
#[derive(Debug, PartialEq, Eq)]
pub enum Command {
    /// Run a graph, streaming envelopes to stdout.
    Run(RunArgs),
    /// Check a graph without running it.
    Validate(ValidateArgs),
    /// Fire a scheduled member now.
    Trigger(MemberArgs),
    /// Restart a resettable schedule's clock.
    ResetTimer(MemberArgs),
    /// Cancel a run, or one member of it.
    Cancel(CancelArgs),
    /// Redirect a member's in-flight turn instead of ending it.
    Interrupt(InterruptArgs),
    /// List past runs, or show one record.
    History(HistoryArgs),
    /// Per-identity binding, utilization, and reset, read from oneharness data.
    Health,
    /// Spend one real harness turn in a throwaway directory.
    Smoke(SmokeArgs),
    /// Report every family of scratch, and reclaim what is provably dead.
    Sweep(SweepArgs),
    /// Scaffold or check a persona.
    Persona(PersonaArgs),
}

/// `oneagentgraph run`.
#[derive(Debug, PartialEq, Eq)]
pub struct RunArgs {
    /// The graph config, by path or URL.
    pub graph: String,
    /// The task prose to give every member that takes one.
    pub task: Option<String>,
    /// Read the task prose from a file instead.
    pub task_file: Option<String>,
    /// The directory to run in.
    pub dir: Option<String>,
    /// Extra labels for every event, each as `k=v`.
    pub label: Vec<String>,
    /// Overrides of config fields, each as `members.worker.agent.model=NAME`.
    pub set: Vec<String>,
    /// Keep only the events a filter admits, as a file path or inline JSON. Wins
    /// over the graph's own `events.filter`.
    pub event_filter: Option<String>,
    /// How to render the events.
    pub output: OutputFormat,
    /// Print where the run is and exit instead of streaming.
    pub detach: bool,
}

/// How `run` renders its events, and how `sweep` writes its report.
#[derive(Debug, Clone, Copy, PartialEq, Eq, Hash, Structural)]
pub enum OutputFormat {
    /// One NDJSON envelope per line; for `sweep`, one JSON object.
    Json,
    /// A deterministic rendering of those same envelopes; for `sweep`, the report
    /// an operator reads.
    Text,
}

/// `oneagentgraph validate`.
#[derive(Debug, PartialEq, Eq)]
pub struct ValidateArgs {
    /// The graph config, by path or URL.
    pub graph: String,
}

/// `oneagentgraph trigger` and `oneagentgraph reset-timer`.
#[derive(Debug, PartialEq, Eq)]
pub struct MemberArgs {
    /// The run.
    pub run: String,
    /// The member within it.
    pub member: String,
}

/// `oneagentgraph cancel`.
#[derive(Debug, PartialEq, Eq)]
pub struct CancelArgs {
    /// The run.
    pub run: String,
    /// One member of it; absent to cancel the whole run.
    pub member: Option<String>,
    /// Terminate rather than asking the member to stop.
    pub kill: bool,
}

/// `oneagentgraph interrupt`: addressed as `cancel` is, but always at one member,
/// since there is no whole-run turn to redirect.
#[derive(Debug, PartialEq, Eq)]
pub struct InterruptArgs {
    /// The run.
    pub run: String,
    /// The member within it.
    pub member: String,
    /// What the turn should do instead; absent to only stop it.
    pub input: Option<String>,
    /// Read that redirection from a file instead.
    pub input_file: Option<String>,
}

/// `oneagentgraph history`.
#[derive(Debug, PartialEq, Eq)]
pub struct HistoryArgs {
    /// The run whose records to list; absent for every run.
    pub run: Option<String>,
    /// Show one record instead of listing.
    pub command: Option<HistoryCommand>,
}

/// The `history` subcommands.
#[derive(Debug, PartialEq, Eq)]
pub enum HistoryCommand {
    /// Show one record.
    Show {
        /// The record's id.
        id: String,
    },
}

/// `oneagentgraph smoke`.
#[derive(Debug, PartialEq, Eq)]
pub struct SmokeArgs {
    /// Where to spend the turn; a throwaway directory by default.
    pub dir: Option<String>,
}

/// `oneagentgraph sweep`.
#[derive(Debug, PartialEq, Eq)]
pub struct SweepArgs {
    /// Report what would be reclaimed without removing anything.
    pub dry_run: bool,
    /// Leave scratch written inside this many hours alone.
    pub min_age_hours: MinAgeHours,
    /// How to write the report.
    pub format: OutputFormat,
}

/// `oneagentgraph persona`.
#[derive(Debug, PartialEq, Eq)]
pub struct PersonaArgs {
    /// What to do with a persona.
    pub command: PersonaCommand,
}

/// The `persona` subcommands.
#[derive(Debug, PartialEq, Eq)]
pub enum PersonaCommand {
    /// Scaffold a new persona.
    New {
        /// The persona's name.
        name: String,
    },
    /// Check a persona file.
    Validate {
        /// The persona file's path.
        path: String,
    },
}

/// The default [`SweepArgs::min_age_hours`].
pub const DEFAULT_MIN_AGE_HOURS: u64 = 24;

/// The seconds in an hour.
pub const SECONDS_PER_HOUR: u64 = 3600;

/// The nanoseconds in a second.
pub const NANOS_PER_SECOND: u32 = 1_000_000_000;

/// A span of time, as whole seconds and the nanoseconds beyond them.
#[derive(Debug, Clone, Copy, PartialEq, Eq, Structural)]
pub struct Span {
    /// The whole seconds.
    pub secs: u64,
    /// The nanoseconds beyond them.
    pub nanos: u32,
}

impl Span {
    /// Whether the nanoseconds are short of another second.
    pub open spec fn well_formed(self) -> bool {
        self.nanos < NANOS_PER_SECOND
    }
}

/// A non-negative number of hours, as `--min-age-hours` reads one.
///
/// Decimal rather than whole: the floor is one value an operator passes to this
/// verb and to a sibling tool alike.
#[derive(Debug, Clone, Copy, PartialEq, Eq, Structural)]
pub struct MinAgeHours {
    floor: Span,
}

/// What a number of hours on the command line was read as.
#[derive(Debug, Clone, Copy, PartialEq, Eq, Structural)]
pub enum Hours {
    /// Not a number at all.
    NotNumeric,
    /// A number with no place among the floors: below zero, or neither below it
    /// nor not.
    BelowZero,
    /// More than a span of time can hold.
    TooMany,
    /// This long.
    Long(Span),
}

impl MinAgeHours {
    /// The floor, as a span of time.
    pub closed spec fn span(self) -> Span {
        self.floor
    }

    /// The flag's default.
    pub fn default_floor() -> (floor: Self)
        ensures
            floor.span() == (Span { secs: 86_400, nanos: 0 }),
            floor.span().secs == DEFAULT_MIN_AGE_HOURS * SECONDS_PER_HOUR,
            floor.span().well_formed(),
    {
        MinAgeHours { floor: Span { secs: DEFAULT_MIN_AGE_HOURS * SECONDS_PER_HOUR, nanos: 0 } }
    }

    /// The floor as the library applies it.
    pub fn as_duration(self) -> (span: Span)
        ensures
            span == self.span(),
    {
        self.floor
    }

    /// The floor a text on the command line names, from what it was read as; a text
    /// that names none is refused in words that say how.
    pub fn read(text: &str, hours: Hours) -> (floor: Result<Self, String>)
        requires
            hours matches Hours::Long(span) ==> span.well_formed(),
        ensures
            match hours {
                Hours::Long(span) => floor matches Ok(found) && found.span() == span,
                Hours::NotNumeric => floor matches Err(why) && why@ == "`"@ + text@
                    + "` is not a number of hours"@,
                Hours::BelowZero => floor matches Err(why) && why@ == "`"@ + text@
                    + "` is not a non-negative number of hours"@,
                Hours::TooMany => floor matches Err(why) && why@ == "`"@ + text@
                    + "` is more hours than a floor can hold"@,
            },
    {
        let how = match hours {
            Hours::Long(floor) => {
                return Ok(MinAgeHours { floor });
            },
            Hours::NotNumeric => "` is not a number of hours",
            Hours::BelowZero => "` is not a non-negative number of hours",
            Hours::TooMany => "` is more hours than a floor can hold",
        };
        let mut why = String::from_str("`");
        why.append(text);
        why.append(how);
        Err(why)
    }
}

} // verus!
