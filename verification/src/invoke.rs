//! Preparing one member for launch.
//!
//! A member's refs are resolved, its persona is merged onto its base, and each
//! side's oneharness config is stamped with the member's own values; what starts
//! the member is assembled from that. Resolving, merging and writing touch the
//! world: what they gave is handed in, and the files to write are handed back.
//!
//! Both sides of a conversation are pinned by file, never by directory, because
//! one process runs every member of the graph at once.

use vstd::pervasive::unreached;
use vstd::prelude::*;
use vstd::string::StringExecFns;

use crate::anchor::{absolute, absolute_of, anchored, anchored_of, join_path, seen, under};
use crate::config::{Member, OneharnessMember, OnejudgeMember, TaskText};
use crate::error::Error;
use crate::json::{
    json_document, json_string, members_of, put_member, with_member, write_document,
    write_json_string, write_yaml, yaml_of,
};
use crate::keyed::{get, value_at};
use crate::member::Kind;
use crate::provider::{
    file_of, files_of, is_refusal, member_stamped, panel_of, provider_block, provider_text,
    stamp_member, Refused,
};
use crate::task::{member_task, no_task, task_of};
use crate::text::{decimal, join, separated, text_of, texts_of, write_decimal};

pub use crate::provider::JUDGE_CONFIG_FILE;
pub use crate::stamp::stamp_model;

verus! {

/// The file name oneharness discovers upward from a working directory. Writing
/// the agent side's resolved config under it is what pins that side.
pub const AGENT_CONFIG_FILE: &'static str = "oneharness.toml";

/// The effective onejudge config a `kind: onejudge` member runs.
pub const ONEJUDGE_CONFIG_FILE: &'static str = "onejudge.yaml";

/// Where a single-sided member's `mode` lands.
pub const MODE_ENV: &'static str = "ONEHARNESS_MODE";

/// oneharness's process-wide identity selection, which a member does not inherit:
/// it would beat the chain of the config the graph named.
pub const PROCESS_WIDE_HARNESS_ENV: &'static str = "ONEHARNESS_HARNESSES";

/// One file a launch needs written.
#[derive(Debug, PartialEq, Eq)]
pub struct GeneratedFile {
    /// Where it goes.
    pub path: String,
    /// What it holds.
    pub content: String,
}

/// How one member is started.
#[derive(Debug, PartialEq, Eq)]
pub enum Launch {
    /// onejudge's own run driver, over the config written into the member's
    /// scratch, driven in this process.
    Library(Box<JudgeLaunch>),
    /// A child process: the program, its arguments, and the directory it runs in.
    Process {
        /// The program to run.
        program: String,
        /// Its arguments.
        args: Vec<String>,
        /// The child's working directory.
        cwd: String,
    },
}

/// Everything driving one two-party member in this process needs.
#[derive(Debug, PartialEq, Eq)]
pub struct JudgeLaunch {
    /// The effective onejudge config written into the member's scratch.
    pub config: String,
    /// The task prose this member drives to completion.
    pub task: String,
    /// The directory this member's harness works in.
    pub worktree: String,
    /// The agent side's resolved oneharness config, pinned by name rather than by
    /// where the harness happens to run.
    pub agent_config: String,
    /// The session handle threaded across this member's turns.
    pub session: String,
}

/// One config ref a member read.
#[derive(Debug, PartialEq, Eq)]
pub struct ResolvedRef {
    /// Where it was read from.
    pub origin: String,
    /// What was there.
    pub content: String,
}

/// One member, ready to start.
#[derive(Debug, PartialEq, Eq)]
pub struct Invocation {
    /// Which program's contract this member settles under.
    pub kind: Kind,
    /// What starting it means, and where.
    pub launch: Launch,
    /// The persona label to stamp on this member's events, when it has one.
    pub persona: Option<String>,
    /// What this member adds to the process environment of a child it starts.
    /// Empty: a member's own values are in its own files.
    pub env: Vec<(String, String)>,
    /// Every config ref this member read, for the run record.
    pub refs: Vec<ResolvedRef>,
}

/// What a member's invocation is built against.
#[derive(Debug, Clone, Copy)]
pub struct Context<'a> {
    /// The directory this process runs in.
    pub here: &'a str,
    /// The directory the graph was told to work in.
    pub dir: &'a str,
    /// Where this member's generated config files are written.
    pub scratch: &'a str,
    /// The variable the ownership stamp is carried in.
    pub scratch_env: &'a str,
    /// The directory relative refs in the graph document resolve against.
    pub graph_dir: Option<&'a str>,
    /// The graph's own persona catalog, when it named one.
    pub personas: Option<&'a str>,
    /// The task prose, when the run supplied one.
    pub task: Option<&'a str>,
    /// How a member's own task text is read, which the graph document's schema
    /// decided.
    pub task_text: TaskText,
    /// The session name threaded across this member's turns.
    pub session: &'a str,
    /// The `oneharness` binary onejudge shells out to, and that a single-sided
    /// member runs directly.
    pub oneharness_bin: &'a str,
}

/// One value of a merged config.
#[derive(Debug, PartialEq, Eq)]
pub enum Field {
    /// A string.
    Text(String),
    /// A mapping, each value by its JSON text.
    Mapping(Vec<(String, String)>),
    /// Anything else, by its JSON text.
    Other(String),
}

/// A base config with a persona merged onto it.
#[derive(Debug, PartialEq, Eq)]
pub struct Effective {
    /// Its values, by key and in order.
    pub entries: Vec<(String, Field)>,
}

/// A base config, and the directory it was written in when it has one.
#[derive(Debug, PartialEq, Eq)]
pub struct Base {
    /// Where it was written. A base fetched over https has none.
    pub base_dir: Option<String>,
}

/// What resolving and merging a single-sided member's refs gave.
#[derive(Debug)]
pub struct SingleSided {
    /// The member's oneharness config.
    pub config: Result<String, Error>,
    /// The label of its persona, when it has one.
    pub persona: Result<Option<String>, Error>,
}

/// What resolving and merging a two-party member's refs gave.
#[derive(Debug)]
pub struct TwoParty {
    /// The onejudge base config.
    pub base: Result<Base, Error>,
    /// The label of its persona, when it has one.
    pub persona: Result<Option<String>, Error>,
    /// The base with the persona merged onto it.
    pub merged: Result<Effective, Error>,
    /// What that is still missing.
    pub missing: Vec<String>,
    /// The agent side's oneharness config.
    pub agent: Result<String, Error>,
    /// Each judge's oneharness config, in the order of the panel; an entry that is
    /// not a harness judge's is not consulted.
    pub judges: Vec<Result<String, Error>>,
}

/// What resolving and merging a member's refs gave.
#[derive(Debug)]
pub enum Sources {
    /// A single-sided member's.
    SingleSided(SingleSided),
    /// A two-party member's.
    TwoParty(TwoParty),
}

/// A launch, and the files it needs: the files come first, and a refusal names
/// only what came after the last of them.
#[derive(Debug)]
pub struct Prepared {
    /// The files to write, in order.
    pub files: Vec<GeneratedFile>,
    /// The member, ready to start, or why it cannot be.
    pub invocation: Result<Invocation, Error>,
}

/// The directory a member is told to work in.
pub open spec fn directory_of(named: Option<Seq<char>>, here: Seq<char>, dir: Seq<char>) -> Seq<
    char,
> {
    match named {
        None => dir,
        Some(named) => absolute_of(here, under(dir, named)),
    }
}

/// The directory one member is told to work in: its own when it named one, and the
/// graph's when it did not.
///
/// A member that named none gets the graph's exactly as the run was given it. A
/// member's own is joined onto the graph's and made absolute against this
/// process's directory, because the child it goes to is spawned elsewhere.
pub fn member_dir(named: &Option<String>, context: &Context<'_>) -> (dir: String)
    ensures
        dir@ == directory_of(text_of(*named), context.here@, context.dir@),
{
    match named {
        None => String::from_str(context.dir),
        Some(named) => {
            let joined = join_path(context.dir, named.as_str());
            absolute(context.here, joined.as_str())
        },
    }
}

// ---- A single-sided member ----
/// The argv a single-sided member's harness is run with.
pub open spec fn harness_args(config: Seq<char>, cwd: Seq<char>, prompt: Seq<char>) -> Seq<
    Seq<char>,
> {
    seq![
        "run"@,
        "--config"@,
        config,
        "--cwd"@,
        cwd,
        "--events"@,
        "--stream"@,
        "--prompt"@,
        prompt,
    ]
}

/// What preparing a single-sided member comes to, before its task is known: the
/// file to write, or the failure carried through.
pub open spec fn single_sided_file(sources: SingleSided, context: Context<'_>) -> Result<
    (Seq<char>, Seq<char>),
    Refused,
> {
    match sources.config {
        Err(error) => Err(Refused::Carried(error)),
        Ok(config) => match sources.persona {
            Err(error) => Err(Refused::Carried(error)),
            Ok(_) => Ok((under(context.scratch@, AGENT_CONFIG_FILE@), config@)),
        },
    }
}

/// Whether `invocation` starts a single-sided member as its document asks.
pub open spec fn starts_single_sided(
    invocation: Invocation,
    member: OneharnessMember,
    persona: Option<String>,
    task: Seq<char>,
    context: Context<'_>,
    refs: Seq<ResolvedRef>,
) -> bool {
    &&& invocation.kind == Kind::Oneharness
    &&& invocation.launch matches Launch::Process { program, args, cwd } && program@
        == context.oneharness_bin@ && cwd@ == context.scratch@ && texts_of(args@) == harness_args(
        under(context.scratch@, AGENT_CONFIG_FILE@),
        directory_of(text_of(member.dir), context.here@, context.dir@),
        task,
    )
    &&& invocation.persona == persona
    &&& invocation.env@.len() == 0
    &&& invocation.refs@ == refs
}

/// Whether `prepared` is what a single-sided member's sources come to.
pub open spec fn prepares_single_sided(
    prepared: Prepared,
    member: OneharnessMember,
    sources: SingleSided,
    context: Context<'_>,
    refs: Seq<ResolvedRef>,
) -> bool {
    match single_sided_file(sources, context) {
        Err(refused) => {
            &&& prepared.files@.len() == 0
            &&& prepared.invocation matches Err(error) && is_refusal(error, refused)
        },
        Ok(file) => {
            &&& files_of(prepared.files@) == seq![file]
            &&& match task_of(text_of(member.task), seen(context.task), context.task_text) {
                None => prepared.invocation matches Err(error) && is_refusal(
                    error,
                    Refused::Said(no_task()),
                ),
                Some(task) => prepared.invocation matches Ok(invocation) && starts_single_sided(
                    invocation,
                    member,
                    sources.persona->Ok_0,
                    task,
                    context,
                    refs,
                ),
            }
        },
    }
}

fn build_single_sided(
    member: &OneharnessMember,
    context: &Context<'_>,
    sources: SingleSided,
    refs: Vec<ResolvedRef>,
) -> (prepared: Prepared)
    ensures
        prepares_single_sided(prepared, *member, sources, *context, refs@),
{
    let mut files: Vec<GeneratedFile> = Vec::new();
    let config = match sources.config {
        Ok(config) => config,
        Err(error) => return Prepared { files, invocation: Err(error) },
    };
    let persona = match sources.persona {
        Ok(persona) => persona,
        Err(error) => return Prepared { files, invocation: Err(error) },
    };
    let path = join_path(context.scratch, AGENT_CONFIG_FILE);
    let dir = member_dir(&member.dir, context);
    let file = GeneratedFile { path: path.clone(), content: config };
    let ghost added = file_of(file);
    files.push(file);
    assert(files_of(files@) =~= seq![added]);
    let task = match member_task(&member.task, context.task, context.task_text) {
        Ok(task) => task,
        Err(error) => return Prepared { files, invocation: Err(error) },
    };
    let mut args: Vec<String> = Vec::new();
    args.push(String::from_str("run"));
    args.push(String::from_str("--config"));
    args.push(path);
    args.push(String::from_str("--cwd"));
    args.push(dir);
    args.push(String::from_str("--events"));
    args.push(String::from_str("--stream"));
    args.push(String::from_str("--prompt"));
    args.push(task);
    assert(texts_of(args@) =~= harness_args(path@, dir@, task@));
    let invocation = Invocation {
        kind: Kind::Oneharness,
        launch: Launch::Process {
            program: String::from_str(context.oneharness_bin),
            args,
            cwd: String::from_str(context.scratch),
        },
        persona,
        env: Vec::new(),
        refs,
    };
    Prepared { files, invocation: Ok(invocation) }
}

// ---- A two-party member ----
/// One value of a merged config, as JSON.
pub open spec fn field_text(field: Field) -> Seq<char> {
    match field {
        Field::Text(text) => json_string(text@),
        Field::Mapping(members) => json_document(members_of(members@)),
        Field::Other(text) => text@,
    }
}

/// A merged config's values, as JSON.
pub open spec fn fields_of(entries: Seq<(String, Field)>) -> Seq<(Seq<char>, Seq<char>)> {
    entries.map_values(|entry: (String, Field)| (entry.0@, field_text(entry.1)))
}

/// What a base config's own `skill` is anchored to: the directory its author wrote
/// it in, where there is one and the skill is a relative path.
pub open spec fn anchored_skill(
    entries: Seq<(String, Field)>,
    base_dir: Option<Seq<char>>,
    here: Seq<char>,
) -> Option<Seq<char>> {
    match (base_dir, value_at(entries, "skill"@)) {
        (Some(base), Some(Field::Text(named))) => anchored_of(here, base, named@),
        _ => None,
    }
}

/// The members of a merged config's `user` mapping.
pub open spec fn user_of(entries: Seq<(String, Field)>) -> Seq<(Seq<char>, Seq<char>)> {
    match value_at(entries, "user"@) {
        Some(Field::Mapping(members)) => members_of(members@),
        _ => seq![],
    }
}

/// Whether a merged config's `user` is a mapping, or absent.
pub open spec fn user_is_a_mapping(entries: Seq<(String, Field)>) -> bool {
    value_at(entries, "user"@) matches Some(field) ==> field is Mapping
}

/// The config a two-party member runs: the merged one with its skill anchored, the
/// panel and the session put in, and the member's own turn cap over the merged
/// one's.
pub open spec fn effective_of(
    entries: Seq<(String, Field)>,
    skill: Option<Seq<char>>,
    provider: Seq<char>,
    session: Seq<char>,
    max_turns: Option<u32>,
) -> Seq<(Seq<char>, Seq<char>)> {
    let merged = fields_of(entries);
    let anchored = match skill {
        Some(path) => with_member(merged, "skill"@, json_string(path)),
        None => merged,
    };
    let panelled = with_member(anchored, "provider"@, provider);
    let named = with_member(panelled, "session"@, json_string(session));
    match max_turns {
        None => named,
        Some(cap) => with_member(
            named,
            "user"@,
            json_document(with_member(user_of(entries), "max_turns"@, decimal(cap as nat))),
        ),
    }
}

/// A merged config that is not complete.
pub open spec fn incomplete(base: Seq<char>, missing: Seq<Seq<char>>) -> Seq<char> {
    "the config "@ + base + " merges to is incomplete: missing "@ + separated(missing, ", "@)
}

/// What preparing a two-party member comes to, before its task is known: the files
/// to write, and the first refusal.
pub open spec fn two_party_files(
    member: OnejudgeMember,
    sources: TwoParty,
    context: Context<'_>,
) -> (Seq<(Seq<char>, Seq<char>)>, Option<Refused>) {
    if let Err(error) = sources.base {
        (seq![], Some(Refused::Carried(error)))
    } else if let Err(error) = sources.persona {
        (seq![], Some(Refused::Carried(error)))
    } else if let Err(error) = sources.merged {
        (seq![], Some(Refused::Carried(error)))
    } else if sources.missing@.len() > 0 {
        (
            seq![],
            Some(
                Refused::Said(incomplete(member.base_config.0@, texts_of(sources.missing@))),
            ),
        )
    } else if let Err(error) = sources.agent {
        (seq![], Some(Refused::Carried(error)))
    } else {
        let stamped = member_stamped(
            sources.agent->Ok_0@,
            member.agent.oneharness_config.0@,
            text_of(member.agent.model),
            member.mode@,
            context,
        );
        match stamped {
            Err(why) => (seq![], Some(Refused::Said(why))),
            Ok(agent) => {
                let first = (under(context.scratch@, AGENT_CONFIG_FILE@), agent);
                let panel = panel_of(
                    member.judge@,
                    sources.judges@,
                    member.mode@,
                    context,
                    member.judge@.len(),
                );
                let files = seq![first] + panel.0;
                match panel.1 {
                    Some(refused) => (files, Some(refused)),
                    None => {
                        let entries = sources.merged->Ok_0.entries@;
                        let document = json_document(
                            effective_of(
                                entries,
                                anchored_skill(
                                    entries,
                                    text_of(sources.base->Ok_0.base_dir),
                                    context.here@,
                                ),
                                provider_text(member.judge@, member.agent.stream, context),
                                context.session@,
                                member.max_turns,
                            ),
                        );
                        match yaml_of(document) {
                            Err(why) => (
                                files,
                                Some(
                                    Refused::Said(
                                        "cannot render the effective config: "@ + why,
                                    ),
                                ),
                            ),
                            Ok(text) => (
                                files.push(
                                    (under(context.scratch@, ONEJUDGE_CONFIG_FILE@), text),
                                ),
                                None,
                            ),
                        }
                    },
                }
            },
        }
    }
}

/// Whether `invocation` starts a two-party member as its document asks.
pub open spec fn starts_two_party(
    invocation: Invocation,
    member: OnejudgeMember,
    persona: Option<String>,
    task: Seq<char>,
    context: Context<'_>,
    refs: Seq<ResolvedRef>,
) -> bool {
    &&& invocation.kind == Kind::Onejudge
    &&& invocation.launch matches Launch::Library(launch) && launch.config@ == under(
        context.scratch@,
        ONEJUDGE_CONFIG_FILE@,
    ) && launch.task@ == task && launch.worktree@ == directory_of(
        text_of(member.dir),
        context.here@,
        context.dir@,
    ) && launch.agent_config@ == under(context.scratch@, AGENT_CONFIG_FILE@) && launch.session@
        == context.session@
    &&& invocation.persona == persona
    &&& invocation.env@.len() == 0
    &&& invocation.refs@ == refs
}

/// Whether `prepared` is what a two-party member's sources come to.
pub open spec fn prepares_two_party(
    prepared: Prepared,
    member: OnejudgeMember,
    sources: TwoParty,
    context: Context<'_>,
    refs: Seq<ResolvedRef>,
) -> bool {
    let wanted = two_party_files(member, sources, context);
    &&& files_of(prepared.files@) == wanted.0
    &&& match wanted.1 {
        Some(refused) => prepared.invocation matches Err(error) && is_refusal(error, refused),
        None => match task_of(text_of(member.task), seen(context.task), context.task_text) {
            None => prepared.invocation matches Err(error) && is_refusal(
                error,
                Refused::Said(no_task()),
            ),
            Some(task) => prepared.invocation matches Ok(invocation) && starts_two_party(
                invocation,
                member,
                sources.persona->Ok_0,
                task,
                context,
                refs,
            ),
        },
    }
}

fn write_field(field: &Field) -> (text: String)
    ensures
        text@ == field_text(*field),
{
    match field {
        Field::Text(text) => write_json_string(text.as_str()),
        Field::Mapping(members) => write_document(members),
        Field::Other(text) => text.clone(),
    }
}

fn write_fields(entries: &Vec<(String, Field)>) -> (members: Vec<(String, String)>)
    ensures
        members_of(members@) == fields_of(entries@),
{
    let mut members: Vec<(String, String)> = Vec::new();
    let mut at: usize = 0;
    assert(members_of(members@) =~= fields_of(entries@).take(0));
    while at < entries.len()
        invariant
            at <= entries@.len(),
            members_of(members@) == fields_of(entries@).take(at as int),
        decreases entries@.len() - at,
    {
        let ghost earlier = members_of(members@);
        let text = write_field(&entries[at].1);
        members.push((entries[at].0.clone(), text));
        assert(members_of(members@) =~= earlier.push((entries@[at as int].0@, text@)));
        assert(fields_of(entries@).take(at + 1) =~= fields_of(entries@).take(at as int).push(
            fields_of(entries@)[at as int],
        ));
        at = at + 1;
    }
    assert(fields_of(entries@).take(at as int) =~= fields_of(entries@));
    members
}

fn copy_members(members: &Vec<(String, String)>) -> (copy: Vec<(String, String)>)
    ensures
        members_of(copy@) == members_of(members@),
{
    let mut copy: Vec<(String, String)> = Vec::new();
    let mut at: usize = 0;
    while at < members.len()
        invariant
            at <= members@.len(),
            copy@ == members@.take(at as int),
        decreases members@.len() - at,
    {
        copy.push((members[at].0.clone(), members[at].1.clone()));
        assert(members@.take(at + 1) =~= members@.take(at as int).push(members@[at as int]));
        at = at + 1;
    }
    assert(members@.take(at as int) =~= members@);
    copy
}

/// Anchor a base config's own `skill` to the directory its author wrote it in: the
/// config onejudge is handed is a copy in the member's scratch, a directory the
/// author never saw.
fn anchor_skill(entries: &Vec<(String, Field)>, base_dir: &Option<String>, here: &str) -> (skill:
    Option<String>)
    ensures
        text_of(skill) == anchored_skill(entries@, text_of(*base_dir), here@),
{
    match (base_dir, get(entries, "skill")) {
        (Some(base), Some(Field::Text(named))) => anchored(here, base.as_str(), named.as_str()),
        _ => None,
    }
}

/// The config a two-party member runs, as JSON.
fn compose_effective(
    entries: &Vec<(String, Field)>,
    skill: Option<String>,
    provider: String,
    session: &str,
    max_turns: Option<u32>,
) -> (document: String)
    ensures
        document@ == json_document(
            effective_of(entries@, text_of(skill), provider@, session@, max_turns),
        ),
{
    let mut members = write_fields(entries);
    if let Some(skill) = skill {
        put_member(&mut members, "skill", write_json_string(skill.as_str()));
    }
    put_member(&mut members, "provider", provider);
    put_member(&mut members, "session", write_json_string(session));
    if let Some(cap) = max_turns {
        let mut user = match get(entries, "user") {
            Some(Field::Mapping(held)) => copy_members(held),
            _ => {
                let none: Vec<(String, String)> = Vec::new();
                assert(members_of(none@) =~= seq![]);
                none
            },
        };
        put_member(&mut user, "max_turns", write_decimal(cap as u64));
        put_member(&mut members, "user", write_document(&user));
    }
    write_document(&members)
}

/// Build a two-party member's invocation.
fn onejudge(
    member: &OnejudgeMember,
    context: &Context<'_>,
    sources: TwoParty,
    refs: Vec<ResolvedRef>,
) -> (prepared: Prepared)
    requires
        member.judge@.len() > 0,
        sources.judges@.len() == member.judge@.len(),
        member.max_turns is Some ==> (sources.merged matches Ok(merged) ==> user_is_a_mapping(
            merged.entries@,
        )),
    ensures
        prepares_two_party(prepared, *member, sources, *context, refs@),
{
    let mut files: Vec<GeneratedFile> = Vec::new();
    assert(files_of(files@) =~= seq![]);
    let base = match sources.base {
        Ok(base) => base,
        Err(error) => return Prepared { files, invocation: Err(error) },
    };
    let persona = match sources.persona {
        Ok(persona) => persona,
        Err(error) => return Prepared { files, invocation: Err(error) },
    };
    let merged = match sources.merged {
        Ok(merged) => merged,
        Err(error) => return Prepared { files, invocation: Err(error) },
    };
    if sources.missing.len() > 0 {
        let mut why = String::from_str("the config ");
        why.append(member.base_config.0.as_str());
        why.append(" merges to is incomplete: missing ");
        why.append(join(&sources.missing, ", ").as_str());
        return Prepared { files, invocation: Err(Error::InvalidConfig(why)) };
    }
    let agent = match sources.agent {
        Ok(agent) => agent,
        Err(error) => return Prepared { files, invocation: Err(error) },
    };
    let stamped = match stamp_member(
        agent.as_str(),
        member.agent.oneharness_config.0.as_str(),
        &member.agent.model,
        member.mode.as_str(),
        context,
    ) {
        Ok(stamped) => stamped,
        Err(error) => return Prepared { files, invocation: Err(error) },
    };
    let agent_path = join_path(context.scratch, AGENT_CONFIG_FILE);
    let file = GeneratedFile { path: agent_path.clone(), content: stamped };
    let ghost first = file_of(file);
    files.push(file);
    assert(files_of(files@) =~= seq![first]);
    let panel = provider_block(
        &member.judge,
        member.agent.stream,
        member.mode.as_str(),
        sources.judges,
        context,
    );
    let ghost judged = panel.files@;
    let mut judge_files = panel.files;
    files.append(&mut judge_files);
    assert(files_of(files@) =~= seq![first] + files_of(judged));
    let provider = match panel.block {
        Ok(provider) => provider,
        Err(error) => return Prepared { files, invocation: Err(error) },
    };
    let skill = anchor_skill(&merged.entries, &base.base_dir, context.here);
    let document = compose_effective(
        &merged.entries,
        skill,
        provider,
        context.session,
        member.max_turns,
    );
    let config_path = join_path(context.scratch, ONEJUDGE_CONFIG_FILE);
    let rendered = match write_yaml(document.as_str()) {
        Ok(rendered) => rendered,
        Err(why) => {
            let mut said = String::from_str("cannot render the effective config: ");
            said.append(why.as_str());
            return Prepared { files, invocation: Err(Error::InvalidConfig(said)) };
        },
    };
    let ghost earlier = files_of(files@);
    let file = GeneratedFile { path: config_path.clone(), content: rendered };
    let ghost last = file_of(file);
    files.push(file);
    assert(files_of(files@) =~= earlier.push(last));
    let task = match member_task(&member.task, context.task, context.task_text) {
        Ok(task) => task,
        Err(error) => return Prepared { files, invocation: Err(error) },
    };
    let launch = JudgeLaunch {
        config: config_path,
        task,
        worktree: member_dir(&member.dir, context),
        agent_config: agent_path,
        session: String::from_str(context.session),
    };
    let invocation = Invocation {
        kind: Kind::Onejudge,
        launch: Launch::Library(Box::new(launch)),
        persona,
        env: Vec::new(),
        refs,
    };
    Prepared { files, invocation: Ok(invocation) }
}

/// Whether `sources` are a member's: of its kind, one for each judge of its panel,
/// and, where the member caps its turns, with a merged config whose `user` is a
/// mapping or absent.
pub open spec fn sources_fit(member: Member, sources: Sources) -> bool {
    match (member, sources) {
        (Member::Oneharness(_), Sources::SingleSided(_)) => true,
        (Member::Onejudge(member), Sources::TwoParty(sources)) => {
            &&& member.judge@.len() > 0
            &&& sources.judges@.len() == member.judge@.len()
            &&& member.max_turns is Some ==> (sources.merged matches Ok(merged)
                ==> user_is_a_mapping(merged.entries@))
        },
        _ => false,
    }
}

/// Why a member cannot be built, where it cannot: the graph's catalog, a file of its
/// own, or the lack of a task, whichever comes first.
pub open spec fn build_refusal(
    member: Member,
    catalog: Result<(), Error>,
    sources: Sources,
    context: Context<'_>,
) -> Option<Refused> {
    match catalog {
        Err(error) => Some(Refused::Carried(error)),
        Ok(()) => match (member, sources) {
            (Member::Oneharness(member), Sources::SingleSided(sources)) => match single_sided_file(
                sources,
                context,
            ) {
                Err(refused) => Some(refused),
                Ok(_) => task_refusal(text_of(member.task), context),
            },
            (Member::Onejudge(member), Sources::TwoParty(sources)) => match two_party_files(
                member,
                sources,
                context,
            ).1 {
                Some(refused) => Some(refused),
                None => task_refusal(text_of(member.task), context),
            },
            _ => None,
        },
    }
}

/// What a member that is left without a task is refused with.
pub open spec fn task_refusal(own: Option<Seq<char>>, context: Context<'_>) -> Option<Refused> {
    match task_of(own, seen(context.task), context.task_text) {
        None => Some(Refused::Said(no_task())),
        Some(_) => None,
    }
}

/// Build one member's invocation from what resolving everything it names gave.
///
/// A catalog the graph named has to be readable whether or not this member looks
/// in it, so `catalog` is what reading it came to.
pub fn build(
    member: &Member,
    context: &Context<'_>,
    catalog: Result<(), Error>,
    sources: Sources,
    refs: Vec<ResolvedRef>,
) -> (prepared: Prepared)
    requires
        sources_fit(*member, sources),
    ensures
        match catalog {
            Err(error) => prepared.files@.len() == 0 && prepared.invocation
                == Err::<Invocation, Error>(error),
            Ok(()) => match (*member, sources) {
                (Member::Oneharness(member), Sources::SingleSided(sources)) =>
                    prepares_single_sided(prepared, member, sources, *context, refs@),
                (Member::Onejudge(member), Sources::TwoParty(sources)) => prepares_two_party(
                    prepared,
                    member,
                    sources,
                    *context,
                    refs@,
                ),
                _ => true,
            },
        },
        match build_refusal(*member, catalog, sources, *context) {
            Some(refused) => prepared.invocation matches Err(error) && is_refusal(error, refused),
            None => prepared.invocation is Ok,
        },
{
    if let Err(error) = catalog {
        return Prepared { files: Vec::new(), invocation: Err(error) };
    }
    match (member, sources) {
        (Member::Oneharness(member), Sources::SingleSided(sources)) => build_single_sided(
            member,
            context,
            sources,
            refs,
        ),
        (Member::Onejudge(member), Sources::TwoParty(sources)) => onejudge(
            member,
            context,
            sources,
            refs,
        ),
        _ => unreached(),
    }
}

} // verus!
