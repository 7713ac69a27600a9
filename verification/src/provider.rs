//! The onejudge `provider` block a two-party member's panel composes to.
//!
//! A lone harness judge with no name of its own is one `oneharness` provider
//! carrying both sides. Anything else is onejudge's `split` provider: the agent
//! side under `skill`, and the judges beside it.

use vstd::prelude::*;
use vstd::string::StringExecFns;

use crate::anchor::{anchored_path, anchored_path_of, join_path, seen, under};
use crate::config::{JudgeCommand, JudgeHarness, JudgeLlmlint, JudgeSide};
use crate::error::Error;
use crate::invoke::{Context, GeneratedFile};
use crate::json::{
    json_bool, json_list, json_member, json_object, json_string, json_strings, write_bool,
    write_list, write_member, write_object, write_string_member, write_strings,
};
use crate::stamp::{stamp_side, stamped_with, Side};
use crate::json_laws::digits_are_told_apart;
use crate::text::{decimal, digit_of, text_of, texts_of, write_decimal};
use crate::validation::{command_judge_refusal, command_refusal};

verus! {

/// The judge side's config, named on its own `oneharness run --config`.
pub const JUDGE_CONFIG_FILE: &'static str = "oneharness.judge.toml";

/// Every two-party member's agent side asks for a controllable turn, so an
/// `interrupt` has a lever whenever the harness under it has one.
pub const ASK_FOR_CONTROL: bool = true;

/// Why a launch could not be prepared: a failure carried through from resolving a
/// ref, or a refusal in these words.
pub enum Refused {
    /// A failure carried through as it is.
    Carried(Error),
    /// An invalid config, in these words.
    Said(Seq<char>),
}

/// Whether `error` is that refusal.
pub open spec fn is_refusal(error: Error, refused: Refused) -> bool {
    match refused {
        Refused::Carried(carried) => error == carried,
        Refused::Said(why) => error matches Error::InvalidConfig(text) && text@ == why,
    }
}

/// A generated file's path and content.
pub open spec fn file_of(file: GeneratedFile) -> (Seq<char>, Seq<char>) {
    (file.path@, file.content@)
}

/// Generated files, by path and content.
pub open spec fn files_of(files: Seq<GeneratedFile>) -> Seq<(Seq<char>, Seq<char>)> {
    files.map_values(|file: GeneratedFile| file_of(file))
}

/// How many of the first `upto` judges are harness judges.
pub open spec fn harnesses_among(judges: Seq<JudgeSide>, upto: nat) -> nat
    decreases upto,
{
    if upto == 0 {
        0
    } else {
        harnesses_among(judges, (upto - 1) as nat) + if judges[upto - 1] is Harness {
            1nat
        } else {
            0
        }
    }
}

/// What onejudge calls a harness judge: the label it carries, or its kind, counted
/// from the second one of that kind on.
pub open spec fn judge_name(judges: Seq<JudgeSide>, at: nat) -> Seq<char> {
    match judges[at as int].labelled() {
        Some(label) => label@,
        None => {
            let earlier = harnesses_among(judges, at);
            if earlier == 0 {
                "oneharness"@
            } else {
                "oneharness-"@ + decimal(earlier + 1)
            }
        },
    }
}

/// Whether a panel is one harness judge with no name of its own.
pub open spec fn alone_and_unnamed(judges: Seq<JudgeSide>) -> bool {
    judges.len() == 1 && judges[0] is Harness && judges[0].labelled() is None
}

/// The file a harness judge's resolved config is written to.
pub open spec fn judge_file(judges: Seq<JudgeSide>, at: nat) -> Seq<char> {
    if alone_and_unnamed(judges) {
        JUDGE_CONFIG_FILE@
    } else {
        "oneharness.judge."@ + judge_name(judges, at) + ".toml"@
    }
}

/// The agent side of a `split` provider.
pub open spec fn skill_block(bin: Seq<char>, stream: bool) -> Seq<char> {
    json_object(
        seq![
            json_member("kind"@, json_string("oneharness"@)),
            json_member("bin"@, json_string(bin)),
            json_member("stream"@, json_bool(stream)),
            json_member("control"@, json_bool(ASK_FOR_CONTROL)),
        ],
    )
}

/// One provider carrying both sides.
pub open spec fn harness_block(bin: Seq<char>, config: Seq<char>, stream: bool) -> Seq<char> {
    json_object(
        seq![
            json_member("kind"@, json_string("oneharness"@)),
            json_member("bin"@, json_string(bin)),
            json_member("judge_config"@, json_string(config)),
            json_member("stream"@, json_bool(stream)),
            json_member("control"@, json_bool(ASK_FOR_CONTROL)),
        ],
    )
}

/// A member of an object for a text that may be absent.
pub open spec fn optional_member(key: Seq<char>, value: Option<Seq<char>>) -> Seq<Seq<char>> {
    match value {
        Some(text) => seq![json_member(key, json_string(text))],
        None => seq![],
    }
}

/// A harness judge, as an entry beside an agent side.
pub open spec fn harness_entry(side: JudgeHarness, bin: Seq<char>, config: Seq<char>) -> Seq<char> {
    json_object(
        seq![
            json_member("kind"@, json_string("oneharness"@)),
            json_member("bin"@, json_string(bin)),
            json_member("judge_config"@, json_string(config)),
        ] + optional_member("label"@, text_of(side.label)),
    )
}

/// A command judge, as an entry beside an agent side.
pub open spec fn command_entry(side: JudgeCommand) -> Seq<char> {
    json_object(
        seq![
            json_member("kind"@, json_string("command"@)),
            json_member("command"@, json_strings(texts_of(side.command@))),
        ] + optional_member("label"@, text_of(side.label)),
    )
}

/// An llmlint judge, as an entry beside an agent side. Every field but `config` is
/// handed on as written; `config` is handed on anchored.
pub open spec fn llmlint_entry(side: JudgeLlmlint, config: Option<Seq<char>>) -> Seq<char> {
    let args = if side.args@.len() > 0 {
        seq![json_member("args"@, json_strings(texts_of(side.args@)))]
    } else {
        seq![]
    };
    json_object(
        seq![json_member("kind"@, json_string("llmlint"@))] + optional_member("config"@, config)
            + optional_member("bin"@, text_of(side.bin)) + optional_member(
            "diff_base"@,
            text_of(side.diff_base),
        ) + args + optional_member("label"@, text_of(side.label)),
    )
}

/// The llmlint config a judge names, against the graph document's directory.
pub open spec fn lint_config(side: JudgeLlmlint, context: Context<'_>) -> Option<Seq<char>> {
    match side.config {
        Some(config) => Some(
            anchored_path_of(context.here@, seen(context.graph_dir), config@),
        ),
        None => None,
    }
}

/// One judge's entry in a panel.
pub open spec fn entry_text(judges: Seq<JudgeSide>, at: nat, context: Context<'_>) -> Seq<char> {
    match judges[at as int] {
        JudgeSide::Harness(side) => harness_entry(
            side,
            context.oneharness_bin@,
            under(context.scratch@, judge_file(judges, at)),
        ),
        JudgeSide::Llmlint(side) => llmlint_entry(side, lint_config(side, context)),
        JudgeSide::Command(side) => command_entry(side),
    }
}

/// The first `upto` judges' entries.
pub open spec fn entries_text(judges: Seq<JudgeSide>, upto: nat, context: Context<'_>) -> Seq<
    Seq<char>,
> {
    Seq::new(upto, |i: int| entry_text(judges, i as nat, context))
}

/// The provider block a panel composes to.
pub open spec fn provider_text(judges: Seq<JudgeSide>, stream: bool, context: Context<'_>) -> Seq<
    char,
> {
    if alone_and_unnamed(judges) {
        harness_block(
            context.oneharness_bin@,
            under(context.scratch@, judge_file(judges, 0)),
            stream,
        )
    } else {
        let panel = if judges.len() == 1 {
            json_member("judge"@, entry_text(judges, 0, context))
        } else {
            json_member("judges"@, json_list(entries_text(judges, judges.len(), context)))
        };
        json_object(
            seq![
                json_member("kind"@, json_string("split"@)),
                json_member("skill"@, skill_block(context.oneharness_bin@, stream)),
                panel,
            ],
        )
    }
}

/// One side's config with a member's own values stamped into it.
pub open spec fn member_stamped(
    config: Seq<char>,
    origin: Seq<char>,
    model: Option<Seq<char>>,
    mode: Seq<char>,
    context: Context<'_>,
) -> Result<Seq<char>, Seq<char>> {
    stamped_with(
        config,
        origin,
        model,
        Some(mode),
        Some((context.scratch_env@, context.scratch@)),
    )
}

/// Stamp a member's own values into one side's config.
pub fn stamp_member(
    config: &str,
    origin: &str,
    model: &Option<String>,
    mode: &str,
    context: &Context<'_>,
) -> (stamped: Result<String, Error>)
    ensures
        crate::stamp::says(
            stamped,
            member_stamped(config@, origin@, text_of(*model), mode@, *context),
        ),
        crate::stamp::keeps_the_chain(stamped, config@),
{
    let side = Side {
        model: match model {
            Some(model) => Some(model.as_str()),
            None => None,
        },
        mode: Some(mode),
        scratch: Some((context.scratch_env, context.scratch)),
    };
    stamp_side(config, origin, side)
}

/// What preparing one judge comes to: the file a harness judge's config is written
/// to, or why the judge cannot run.
pub open spec fn judge_of(
    judges: Seq<JudgeSide>,
    at: nat,
    config: Result<String, Error>,
    mode: Seq<char>,
    context: Context<'_>,
) -> Result<Option<(Seq<char>, Seq<char>)>, Refused> {
    match judges[at as int] {
        JudgeSide::Llmlint(_) => Ok(None),
        JudgeSide::Command(side) => match command_refusal(side.command@) {
            Some(why) => Err(Refused::Said(why)),
            None => Ok(None),
        },
        JudgeSide::Harness(side) => match config {
            Err(error) => Err(Refused::Carried(error)),
            Ok(config) => match member_stamped(
                config@,
                side.oneharness_config.0@,
                text_of(side.model),
                mode,
                context,
            ) {
                Err(why) => Err(Refused::Said(why)),
                Ok(text) => Ok(Some((under(context.scratch@, judge_file(judges, at)), text))),
            },
        },
    }
}

/// What preparing the first `upto` judges came to: the files their configs are
/// written to, and the first refusal.
pub open spec fn panel_of(
    judges: Seq<JudgeSide>,
    configs: Seq<Result<String, Error>>,
    mode: Seq<char>,
    context: Context<'_>,
    upto: nat,
) -> (Seq<(Seq<char>, Seq<char>)>, Option<Refused>)
    decreases upto,
{
    if upto == 0 {
        (seq![], None)
    } else {
        let at = (upto - 1) as nat;
        let earlier = panel_of(judges, configs, mode, context, at);
        if earlier.1 is Some {
            earlier
        } else {
            match judge_of(judges, at, configs[at as int], mode, context) {
                Err(refused) => (earlier.0, Some(refused)),
                Ok(Some(file)) => (earlier.0.push(file), None),
                Ok(None) => earlier,
            }
        }
    }
}

proof fn a_refused_judge_ends_the_panel(
    judges: Seq<JudgeSide>,
    configs: Seq<Result<String, Error>>,
    mode: Seq<char>,
    context: Context<'_>,
    at: nat,
    upto: nat,
)
    requires
        at <= upto,
        panel_of(judges, configs, mode, context, at).1 is Some,
    ensures
        panel_of(judges, configs, mode, context, upto) == panel_of(
            judges,
            configs,
            mode,
            context,
            at,
        ),
    decreases upto,
{
    if at < upto {
        a_refused_judge_ends_the_panel(judges, configs, mode, context, at, (upto - 1) as nat);
    }
}

fn push_optional(members: &mut Vec<String>, key: &str, value: &Option<String>)
    ensures
        texts_of(final(members)@) == texts_of(old(members)@) + optional_member(
            key@,
            text_of(*value),
        ),
{
    if let Some(value) = value {
        let member = write_string_member(key, value.as_str());
        members.push(member);
        assert(texts_of(members@) =~= texts_of(old(members)@).push(member@));
    }
    assert(texts_of(members@) =~= texts_of(old(members)@) + optional_member(
        key@,
        text_of(*value),
    ));
}

fn push_text(members: &mut Vec<String>, text: String)
    ensures
        texts_of(final(members)@) == texts_of(old(members)@).push(text@),
{
    let ghost added = text@;
    members.push(text);
    assert(texts_of(members@) =~= texts_of(old(members)@).push(added));
}

fn write_skill(bin: &str, stream: bool) -> (text: String)
    ensures
        text@ == skill_block(bin@, stream),
{
    let mut members: Vec<String> = Vec::new();
    assert(texts_of(members@) =~= seq![]);
    push_text(&mut members, write_string_member("kind", "oneharness"));
    push_text(&mut members, write_string_member("bin", bin));
    push_text(&mut members, write_member("stream", write_bool(stream)));
    push_text(&mut members, write_member("control", write_bool(ASK_FOR_CONTROL)));
    assert(texts_of(members@) =~= seq![
        json_member("kind"@, json_string("oneharness"@)),
        json_member("bin"@, json_string(bin@)),
        json_member("stream"@, json_bool(stream)),
        json_member("control"@, json_bool(ASK_FOR_CONTROL)),
    ]);
    write_object(&members)
}

fn write_harness_block(bin: &str, config: &str, stream: bool) -> (text: String)
    ensures
        text@ == harness_block(bin@, config@, stream),
{
    let mut members: Vec<String> = Vec::new();
    assert(texts_of(members@) =~= seq![]);
    push_text(&mut members, write_string_member("kind", "oneharness"));
    push_text(&mut members, write_string_member("bin", bin));
    push_text(&mut members, write_string_member("judge_config", config));
    push_text(&mut members, write_member("stream", write_bool(stream)));
    push_text(&mut members, write_member("control", write_bool(ASK_FOR_CONTROL)));
    assert(texts_of(members@) =~= seq![
        json_member("kind"@, json_string("oneharness"@)),
        json_member("bin"@, json_string(bin@)),
        json_member("judge_config"@, json_string(config@)),
        json_member("stream"@, json_bool(stream)),
        json_member("control"@, json_bool(ASK_FOR_CONTROL)),
    ]);
    write_object(&members)
}

fn write_harness_entry(side: &JudgeHarness, bin: &str, config: &str) -> (text: String)
    ensures
        text@ == harness_entry(*side, bin@, config@),
{
    let mut members: Vec<String> = Vec::new();
    assert(texts_of(members@) =~= seq![]);
    push_text(&mut members, write_string_member("kind", "oneharness"));
    push_text(&mut members, write_string_member("bin", bin));
    push_text(&mut members, write_string_member("judge_config", config));
    assert(texts_of(members@) =~= seq![
        json_member("kind"@, json_string("oneharness"@)),
        json_member("bin"@, json_string(bin@)),
        json_member("judge_config"@, json_string(config@)),
    ]);
    push_optional(&mut members, "label", &side.label);
    write_object(&members)
}

fn write_command_entry(side: &JudgeCommand) -> (text: String)
    ensures
        text@ == command_entry(*side),
{
    let mut members: Vec<String> = Vec::new();
    assert(texts_of(members@) =~= seq![]);
    push_text(&mut members, write_string_member("kind", "command"));
    push_text(&mut members, write_member("command", write_strings(&side.command).as_str()));
    assert(texts_of(members@) =~= seq![
        json_member("kind"@, json_string("command"@)),
        json_member("command"@, json_strings(texts_of(side.command@))),
    ]);
    push_optional(&mut members, "label", &side.label);
    write_object(&members)
}

fn write_llmlint_entry(side: &JudgeLlmlint, config: &Option<String>) -> (text: String)
    ensures
        text@ == llmlint_entry(*side, text_of(*config)),
{
    let mut members: Vec<String> = Vec::new();
    assert(texts_of(members@) =~= seq![]);
    push_text(&mut members, write_string_member("kind", "llmlint"));
    assert(texts_of(members@) =~= seq![json_member("kind"@, json_string("llmlint"@))]);
    push_optional(&mut members, "config", config);
    push_optional(&mut members, "bin", &side.bin);
    push_optional(&mut members, "diff_base", &side.diff_base);
    let ghost earlier = texts_of(members@);
    if side.args.len() > 0 {
        push_text(&mut members, write_member("args", write_strings(&side.args).as_str()));
        assert(texts_of(members@) =~= earlier + seq![
            json_member("args"@, json_strings(texts_of(side.args@))),
        ]);
    } else {
        assert(texts_of(members@) =~= earlier + Seq::<Seq<char>>::empty());
    }
    push_optional(&mut members, "label", &side.label);
    write_object(&members)
}

/// The file a harness judge's resolved config is written to, from how many harness
/// judges stand before it.
fn write_judge_file(judges: &Vec<JudgeSide>, at: usize, earlier: usize) -> (name: String)
    requires
        at < judges@.len(),
        earlier == harnesses_among(judges@, at as nat),
        earlier <= at,
    ensures
        name@ == judge_file(judges@, at as nat),
{
    let alone = judges.len() == 1 && match &judges[0] {
        JudgeSide::Harness(side) => side.label.is_none(),
        _ => false,
    };
    if alone {
        return String::from_str(JUDGE_CONFIG_FILE);
    }
    let mut name = String::from_str("oneharness.judge.");
    match judges[at].label() {
        Some(label) => {
            name.append(label.as_str());
        },
        None => {
            if earlier == 0 {
                name.append("oneharness");
            } else {
                let mut counted = String::from_str("oneharness-");
                counted.append(write_decimal(earlier as u64 + 1).as_str());
                name.append(counted.as_str());
            }
        },
    }
    name.append(".toml");
    name
}

/// What composing a panel came to.
pub struct Panel {
    /// The config files the harness judges run under.
    pub files: Vec<GeneratedFile>,
    /// The provider block, as JSON.
    pub block: Result<String, Error>,
}

/// One judge, prepared: the file its config is written to, when it is a harness
/// judge, and its entry in the panel.
fn prepare_judge(
    judges: &Vec<JudgeSide>,
    at: usize,
    earlier: usize,
    config: Result<String, Error>,
    mode: &str,
    context: &Context<'_>,
) -> (judge: Result<(Option<GeneratedFile>, String), Error>)
    requires
        at < judges@.len(),
        earlier == harnesses_among(judges@, at as nat),
        earlier <= at,
    ensures
        match judge_of(judges@, at as nat, config, mode@, *context) {
            Err(refused) => judge matches Err(error) && is_refusal(error, refused),
            Ok(Some(wanted)) => judge matches Ok((Some(file), entry)) && file_of(file) == wanted
                && entry@ == entry_text(judges@, at as nat, *context),
            Ok(None) => judge matches Ok((None, entry)) && entry@ == entry_text(
                judges@,
                at as nat,
                *context,
            ),
        },
        judge matches Ok((file, _)) ==> (file is Some <==> judges@[at as int] is Harness),
{
    match &judges[at] {
        JudgeSide::Harness(side) => {
            let config = match config {
                Ok(config) => config,
                Err(error) => return Err(error),
            };
            let content = match stamp_member(
                config.as_str(),
                side.oneharness_config.0.as_str(),
                &side.model,
                mode,
                context,
            ) {
                Ok(content) => content,
                Err(error) => return Err(error),
            };
            let name = write_judge_file(judges, at, earlier);
            let path = join_path(context.scratch, name.as_str());
            let entry = write_harness_entry(side, context.oneharness_bin, path.as_str());
            Ok((Some(GeneratedFile { path, content }), entry))
        },
        JudgeSide::Llmlint(side) => {
            let config = match &side.config {
                Some(config) => Some(
                    anchored_path(context.here, context.graph_dir, config.as_str()),
                ),
                None => None,
            };
            Ok((None, write_llmlint_entry(side, &config)))
        },
        JudgeSide::Command(side) => {
            if let Some(why) = command_judge_refusal(&side.command) {
                return Err(Error::InvalidConfig(why));
            }
            Ok((None, write_command_entry(side)))
        },
    }
}

/// The block a panel is composed into, from the entries of its judges; `first` is
/// where the config of the first one is, when it is a harness judge.
fn compose(
    judges: &Vec<JudgeSide>,
    stream: bool,
    entries: &Vec<String>,
    first: &Option<String>,
    context: &Context<'_>,
) -> (block: String)
    requires
        judges@.len() > 0,
        texts_of(entries@) == entries_text(judges@, judges@.len(), *context),
        judges@[0] is Harness ==> text_of(*first) == Some(
            under(context.scratch@, judge_file(judges@, 0)),
        ),
    ensures
        block@ == provider_text(judges@, stream, *context),
{
    let unnamed = match &judges[0] {
        JudgeSide::Harness(side) => side.label.is_none(),
        _ => false,
    };
    if judges.len() == 1 && unnamed {
        if let Some(path) = first {
            return write_harness_block(context.oneharness_bin, path.as_str(), stream);
        }
    }
    assert(entries@.len() == texts_of(entries@).len());
    let panel = if judges.len() == 1 {
        assert(texts_of(entries@)[0] == entries@[0]@);
        write_member("judge", entries[0].as_str())
    } else {
        write_member("judges", write_list(entries).as_str())
    };
    let mut members: Vec<String> = Vec::new();
    assert(texts_of(members@) =~= seq![]);
    push_text(&mut members, write_string_member("kind", "split"));
    push_text(
        &mut members,
        write_member("skill", write_skill(context.oneharness_bin, stream).as_str()),
    );
    let ghost panelled = panel@;
    push_text(&mut members, panel);
    assert(texts_of(members@) =~= seq![
        json_member("kind"@, json_string("split"@)),
        json_member("skill"@, skill_block(context.oneharness_bin@, stream)),
        panelled,
    ]);
    write_object(&members)
}

/// The onejudge `provider` block for a two-party member, and the config files its
/// harness judges run under.
///
/// `configs` is what resolving each judge's own oneharness config gave, in the
/// order of the panel; an entry that is not a harness judge's is not consulted.
#[verifier::loop_isolation(false)]
pub fn provider_block(
    judges: &Vec<JudgeSide>,
    stream: bool,
    mode: &str,
    configs: Vec<Result<String, Error>>,
    context: &Context<'_>,
) -> (panel: Panel)
    requires
        judges@.len() > 0,
        configs@.len() == judges@.len(),
    ensures
        ({
            let wanted = panel_of(judges@, configs@, mode@, *context, judges@.len());
            &&& files_of(panel.files@) == wanted.0
            &&& match wanted.1 {
                Some(refused) => panel.block matches Err(error) && is_refusal(error, refused),
                None => panel.block matches Ok(text) && text@ == provider_text(
                    judges@,
                    stream,
                    *context,
                ),
            }
        }),
{
    let ghost all = configs@;
    let mut rest = configs;
    let mut files: Vec<GeneratedFile> = Vec::new();
    let mut entries: Vec<String> = Vec::new();
    let mut earlier: usize = 0;
    let mut first: Option<String> = None;
    let mut at: usize = 0;
    proof {
        assert(all.skip(0) =~= all);
        assert(files_of(files@) =~= seq![]);
        assert(texts_of(entries@) =~= entries_text(judges@, 0, *context));
    }
    while at < judges.len()
        invariant
            at <= judges@.len(),
            all.len() == judges@.len(),
            rest@ == all.skip(at as int),
            panel_of(judges@, all, mode@, *context, at as nat) == (
                files_of(files@),
                None::<Refused>,
            ),
            texts_of(entries@) == entries_text(judges@, at as nat, *context),
            earlier == harnesses_among(judges@, at as nat),
            earlier <= at,
            at > 0 && judges@[0] is Harness ==> text_of(first) == Some(
                under(context.scratch@, judge_file(judges@, 0)),
            ),
        decreases judges@.len() - at,
    {
        let ghost held = files_of(files@);
        let config = rest.remove(0);
        assert(rest@ =~= all.skip(at + 1));
        assert(config == all[at as int]);
        match prepare_judge(judges, at, earlier, config, mode, context) {
            Err(error) => {
                proof {
                    a_refused_judge_ends_the_panel(
                        judges@,
                        all,
                        mode@,
                        *context,
                        (at + 1) as nat,
                        judges@.len(),
                    );
                }
                return Panel { files, block: Err(error) };
            },
            Ok((file, entry)) => {
                if let Some(file) = file {
                    if at == 0 {
                        first = Some(file.path.clone());
                    }
                    let ghost added = file_of(file);
                    files.push(file);
                    assert(files_of(files@) =~= held.push(added));
                    earlier = earlier + 1;
                }
                push_text(&mut entries, entry);
                assert(texts_of(entries@) =~= entries_text(judges@, (at + 1) as nat, *context));
            },
        }
        at = at + 1;
    }
    let block = compose(judges, stream, &entries, &first, context);
    Panel { files, block: Ok(block) }
}

// ---- The files of a panel ----
proof fn decimals_are_told_apart(a: nat, b: nat)
    requires
        decimal(a) == decimal(b),
    ensures
        a == b,
    decreases a,
{
    let (left, right) = (decimal(a), decimal(b));
    assert(left.last() == digit_of(a % 10));
    assert(right.last() == digit_of(b % 10));
    digits_are_told_apart(a % 10, b % 10);
    if a < 10 {
        assert(left.len() == 1);
        if b >= 10 {
            assert(decimal(b / 10).len() > 0);
            assert(right.len() > 1);
        }
    } else {
        assert(decimal(a / 10).len() > 0);
        assert(left.len() > 1);
        if b < 10 {
            assert(right.len() == 1);
        }
        assert(left.drop_last() =~= decimal(a / 10));
        assert(right.drop_last() =~= decimal(b / 10));
        decimals_are_told_apart(a / 10, b / 10);
    }
}

proof fn a_later_harness_has_more_before_it(judges: Seq<JudgeSide>, a: nat, b: nat)
    requires
        a < b,
        judges[a as int] is Harness,
    ensures
        harnesses_among(judges, b) > harnesses_among(judges, a),
    decreases b,
{
    if a + 1 < b {
        a_later_harness_has_more_before_it(judges, a, (b - 1) as nat);
    }
}

/// Two harness judges of a panel that carry no label have names of their own.
pub proof fn unlabelled_judges_have_names_of_their_own(judges: Seq<JudgeSide>, a: nat, b: nat)
    requires
        a < b < judges.len(),
        judges[a as int] is Harness,
        judges[b as int] is Harness,
        judges[a as int].labelled() is None,
        judges[b as int].labelled() is None,
    ensures
        judge_name(judges, a) != judge_name(judges, b),
{
    a_later_harness_has_more_before_it(judges, a, b);
    let (left, right) = (judge_name(judges, a), judge_name(judges, b));
    let (first, second) = (harnesses_among(judges, a), harnesses_among(judges, b));
    reveal_strlit("oneharness");
    reveal_strlit("oneharness-");
    assert(right.skip(11) =~= decimal(second + 1));
    if first == 0 {
        assert(left.len() == 10);
        assert(right.len() >= 11);
    } else {
        assert(left.skip(11) =~= decimal(first + 1));
        if left == right {
            decimals_are_told_apart(first + 1, second + 1);
        }
    }
}

/// The files of a panel differ where the names of its judges do. That they do is
/// onejudge's to ask: it names an unlabelled judge as this library does, and refuses
/// a panel in which a name is taken twice.
pub proof fn a_panels_files_differ(judges: Seq<JudgeSide>, a: nat, b: nat, scratch: Seq<char>)
    requires
        a < b < judges.len(),
        judge_name(judges, a) != judge_name(judges, b),
    ensures
        under(scratch, judge_file(judges, a)) != under(scratch, judge_file(judges, b)),
{
    let before = "oneharness.judge."@;
    let after = ".toml"@;
    let (left, right) = (judge_name(judges, a), judge_name(judges, b));
    let (one, other) = (judge_file(judges, a), judge_file(judges, b));
    let start = before.len() as int;
    assert(one.subrange(start, one.len() - after.len()) =~= left);
    assert(other.subrange(start, other.len() - after.len()) =~= right);
    reveal_strlit("oneharness.judge.");
    reveal_strlit("oneharness.judge.toml");
    let (here, there) = (under(scratch, one), under(scratch, other));
    assert(here.skip(here.len() - one.len()) =~= one);
    assert(there.skip(there.len() - other.len()) =~= other);
}

} // verus!
