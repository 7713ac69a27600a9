use oneagentgraph::config::{
    AgentSide, ConfigRef, GraphConfig, JudgeCommand, JudgeHarness, JudgeLlmlint, JudgeSide,
    LlmlintKind, Member, OneharnessMember, OnejudgeMember, TaskText, FIRST_SCHEMA_VERSION,
    FIRST_TASK_TOKEN_VERSION,
};
use oneagentgraph::error::Error;
use oneagentgraph::invoke::{
    build, member_dir, Base, Context, Effective, Field, GeneratedFile, Invocation, JudgeLaunch,
    Launch, Prepared, ResolvedRef, SingleSided, Sources, TwoParty, AGENT_CONFIG_FILE,
    JUDGE_CONFIG_FILE, ONEJUDGE_CONFIG_FILE,
};
use oneagentgraph::member::Kind;
use oneagentgraph::persona::{
    catalog_entry, catalog_file, catalog_path, catalog_root, file_stem, load_persona,
    persona_document, Persona, PersonaSource, Stat,
};
use oneagentgraph::preflight::{build_members, Check, Named};
use oneagentgraph::provider::provider_block;
use oneagentgraph::stamp::{stamp_model, stamp_side, Side};
use oneagentgraph::task::expand_task;
use toml_edit::DocumentMut;

const SCRATCH_ENV: &str = "ONEAGENTGRAPH_SCRATCH";

const ONE_FAMILY: &str = "# an operator's own comment\nrun_mode = \"fallback\"\n\
    harnesses = [\"codex:alternate\", \"codex:primary\"]\n\n[harness.codex]\nmodel = \"gpt-5\"\n";

// ---- Stamping ----
/// The stamp lands on the family's own section, and the rest of the operator's file
/// — comments included — is byte-identical.
#[test]
fn a_model_is_stamped_into_the_family_it_was_paired_with() {
    let stamped = stamp_model(ONE_FAMILY, "oneharness.toml", "gpt-6-mini").unwrap();
    assert!(stamped.contains("model = \"gpt-6-mini\""));
    assert!(!stamped.contains("gpt-5"));
    assert!(stamped.starts_with("# an operator's own comment\n"));
    assert!(stamped.contains("run_mode = \"fallback\""));
    assert_eq!(stamped, ONE_FAMILY.replace("gpt-5", "gpt-6-mini"));
}

/// A config with no per-harness section yet gains one, so a chain that never pinned
/// a model still takes the override.
#[test]
fn a_config_with_no_per_harness_section_gains_one() {
    let stamped = stamp_model("harnesses = [\"codex\"]\n", "c.toml", "gpt-5.5").unwrap();
    assert!(stamped.contains("[harness.codex]"), "{stamped}");
    assert!(stamped.contains("model = \"gpt-5.5\""), "{stamped}");
}

/// The pairing rule: a chain spanning two families refuses before launch, naming
/// both.
#[test]
fn a_chain_spanning_two_families_refuses_the_model() {
    let err = stamp_model(
        "harnesses = [\"codex\", \"amp:alternate\"]\n",
        "oneharness.toml",
        "gpt-5",
    )
    .unwrap_err();
    let message = err.message();
    assert!(message.contains("amp, codex"), "{message}");
    assert!(message.contains("one harness family"), "{message}");
}

/// A config that declares no chain, an empty one, or a non-string entry has nothing
/// to pair a model with, and says so.
#[test]
fn a_config_with_no_usable_chain_refuses_the_model() {
    for (config, expected) in [
        ("run_mode = \"fallback\"\n", "declares no `harnesses` chain"),
        ("harnesses = []\n", "declares an empty `harnesses` chain"),
        ("harnesses = [1]\n", "must be a string"),
        ("harnesses = [\"codex\"]\nharness = 3\n", "must be a table"),
        ("not = toml = here\n", "not valid TOML"),
    ] {
        let err = stamp_model(config, "c.toml", "m").unwrap_err().message();
        assert!(err.contains(expected), "{config:?}: {err}");
    }
}

/// A model value is forwarded unchecked.
#[test]
fn the_model_value_itself_is_never_checked() {
    let stamped = stamp_model(ONE_FAMILY, "c.toml", "no-such-model-anywhere").unwrap();
    assert!(stamped.contains("no-such-model-anywhere"));
}

/// A side with nothing of its own to carry is handed back untouched, and one whose
/// config cannot hold the stamp says which key is wrong.
#[test]
fn a_side_with_nothing_to_carry_is_untouched_and_one_that_cannot_hold_it_says_so() {
    assert_eq!(
        stamp_side(ONE_FAMILY, "oneharness.toml", Side::plain()).expect("untouched"),
        ONE_FAMILY,
        "a side with nothing to stamp must not be rewritten at all"
    );

    let err = stamp_side(
        "harnesses = [\"codex\"]\nenv = 3\n",
        "c.toml",
        Side {
            scratch: Some((SCRATCH_ENV, "/state/run/members/worker")),
            ..Side::plain()
        },
    )
    .unwrap_err()
    .message();
    assert!(err.contains("`env` must be a table"), "{err}");

    let err = stamp_side(
        "not = toml = here\n",
        "c.toml",
        Side {
            mode: Some("bypass"),
            ..Side::plain()
        },
    )
    .unwrap_err()
    .message();
    assert!(err.contains("not valid TOML"), "{err}");
}

/// A scratch path carrying backslashes round-trips through the stamp with its value
/// intact.
#[test]
fn a_scratch_path_with_backslashes_round_trips_through_the_stamp() {
    let windows = r"C:\Users\RUNNER~1\AppData\Local\Temp\.tmpCuzqTi\scratch";
    let stamped = stamp_side(
        ONE_FAMILY,
        "oneharness.toml",
        Side {
            mode: Some("bypass"),
            scratch: Some((SCRATCH_ENV, windows)),
            ..Side::plain()
        },
    )
    .expect("stamped");

    let document: DocumentMut = stamped.parse().expect("the stamped config is still TOML");
    assert_eq!(
        document["env"][SCRATCH_ENV].as_str(),
        Some(windows),
        "the stamp did not survive being written and read back: {stamped}"
    );
    assert_eq!(document["mode"].as_str(), Some("bypass"), "{stamped}");
}

/// A config whose `harness` key is not a table of sections cannot take a stamp, and
/// says which key is wrong.
#[test]
fn a_config_whose_harness_section_is_not_a_table_is_refused() {
    let err = stamp_model(
        "harnesses = [\"codex\"]\n[harness]\ncodex = 3\n",
        "c.toml",
        "gpt-5.5",
    )
    .unwrap_err()
    .message();
    assert!(err.contains("`harness.codex` must be a table"), "{err}");
}

// ---- Building a member ----
fn context<'a>(dir: &'a str, scratch: &'a str) -> Context<'a> {
    Context {
        here: "/here",
        dir,
        scratch,
        scratch_env: SCRATCH_ENV,
        graph_dir: Some(dir),
        personas: None,
        task: Some("do the thing"),
        task_text: TaskText::Template,
        session: "s",
        oneharness_bin: "oneharness",
    }
}

fn text(value: &str) -> Field {
    Field::Text(value.to_string())
}

/// A complete base, merged.
fn merged() -> Effective {
    let mapping = |members: &[(&str, &str)]| {
        Field::Mapping(
            members
                .iter()
                .map(|member| (member.0.to_string(), member.1.to_string()))
                .collect(),
        )
    };
    Effective {
        entries: vec![
            ("provider".to_string(), mapping(&[("kind", "\"oneharness\"")])),
            ("system_prompt".to_string(), text("preamble")),
            (
                "user".to_string(),
                mapping(&[
                    ("persona", "\"lead\""),
                    ("done_when", "\"done\""),
                    ("max_turns", "4"),
                ]),
            ),
        ],
    }
}

fn two_party_sources(judges: usize) -> TwoParty {
    TwoParty {
        base: Ok(Base {
            base_dir: Some("/graph".to_string()),
        }),
        persona: Ok(None),
        merged: Ok(merged()),
        missing: Vec::new(),
        agent: Ok(ONE_FAMILY.to_string()),
        judges: (0..judges).map(|_| Ok(ONE_FAMILY.to_string())).collect(),
    }
}

fn reference() -> ConfigRef {
    ConfigRef("./oneharness.toml".to_string())
}

fn harness_judge() -> JudgeSide {
    JudgeSide::Harness(JudgeHarness {
        oneharness_config: reference(),
        model: None,
        label: None,
    })
}

fn two_party(judge: Vec<JudgeSide>) -> OnejudgeMember {
    OnejudgeMember {
        base_config: ConfigRef("./base.yaml".to_string()),
        persona: None,
        task: None,
        agent: AgentSide {
            oneharness_config: reference(),
            model: None,
            stream: true,
        },
        judge,
        mode: "bypass".to_string(),
        max_turns: None,
        dir: None,
        schedule: None,
        background: None,
        deps: Vec::new(),
    }
}

fn file<'a>(files: &'a [GeneratedFile], path: &str) -> &'a str {
    &files.iter().find(|file| file.path == path).expect("a file").content
}

/// The two-party launch of `invocation`, or a panic naming what it was.
fn judge_launch(invocation: &Invocation) -> &JudgeLaunch {
    match &invocation.launch {
        Launch::Library(launch) => launch,
        other => panic!("expected a library launch, got {other:?}"),
    }
}

fn build_two_party(member: OnejudgeMember, context: &Context<'_>) -> Prepared {
    let judges = member.judge.len();
    build(
        &Member::Onejudge(member),
        context,
        Ok(()),
        Sources::TwoParty(two_party_sources(judges)),
        Vec::new(),
    )
}

/// A member's own `max_turns` beats the merged config's, and the effective config is
/// written where onejudge is told to read it.
#[test]
fn a_members_own_turn_cap_reaches_the_effective_config() {
    let mut member = two_party(vec![harness_judge()]);
    member.max_turns = Some(9);
    let context = context("/graph", "/state/r/members/w");
    let refs = vec![ResolvedRef {
        origin: "/graph/base.yaml".to_string(),
        content: "base".to_string(),
    }];
    let prepared = build(
        &Member::Onejudge(member),
        &context,
        Ok(()),
        Sources::TwoParty(two_party_sources(1)),
        refs,
    );
    let invocation = prepared.invocation.expect("built");
    assert_eq!(invocation.kind, Kind::Onejudge);
    // Nothing exported: a member's own values are in its own files.
    assert!(invocation.env.is_empty(), "{:?}", invocation.env);
    assert_eq!(invocation.refs.len(), 1);
    let scratch = "/state/r/members/w";
    let effective = file(&prepared.files, &format!("{scratch}/{ONEJUDGE_CONFIG_FILE}"));
    assert!(effective.contains("max_turns: 9"), "{effective}");
    assert!(effective.contains("system_prompt"), "{effective}");
    assert!(effective.contains("persona: lead"), "{effective}");
    assert!(effective.contains("session: s"), "{effective}");
    // Both sides carry the member's mode and its ownership stamp.
    for side in [AGENT_CONFIG_FILE, JUDGE_CONFIG_FILE] {
        let config = file(&prepared.files, &format!("{scratch}/{side}"));
        let document: DocumentMut = config.parse().expect(side);
        assert_eq!(
            document["mode"].as_str(),
            Some("bypass"),
            "{side}: {config}"
        );
        assert_eq!(
            document["env"][SCRATCH_ENV].as_str(),
            Some(scratch),
            "{side}: {config}"
        );
        // And the operator's own file is otherwise untouched — comments included.
        assert!(
            config.starts_with("# an operator's own comment\n"),
            "{config}"
        );
    }
    assert_eq!(judge_launch(&invocation).task, "do the thing");
    // The member works in the directory the graph was given, and is pinned by the
    // stamped config in its scratch.
    assert_eq!(judge_launch(&invocation).worktree, "/graph");
    assert_eq!(
        judge_launch(&invocation).agent_config,
        format!("{scratch}/{AGENT_CONFIG_FILE}")
    );
    // The effective config is one onejudge itself reads.
    let read = onejudge::cli::Config::from_yaml(effective).expect("onejudge reads it");
    assert_eq!(read.provider.stream, Some(true));
}

/// A member with its own `task` uses it, and one with a persona file takes its label
/// from the file when the persona names none.
#[test]
fn a_member_takes_its_own_task_and_its_files_name() {
    let label = load_persona(
        "./lead.yaml",
        "/graph/lead.yaml",
        Persona {
            label: None,
            errors: Vec::new(),
        },
    )
    .expect("a persona");
    assert_eq!(label.as_deref(), Some("lead"));
    let mut member = two_party(vec![harness_judge()]);
    member.task = Some("its own task".to_string());
    let mut sources = two_party_sources(1);
    sources.persona = Ok(label);
    let prepared = build(
        &Member::Onejudge(member),
        &context("/graph", "/s"),
        Ok(()),
        Sources::TwoParty(sources),
        Vec::new(),
    );
    let invocation = prepared.invocation.expect("built");
    assert_eq!(judge_launch(&invocation).task, "its own task");
    assert_eq!(invocation.persona.as_deref(), Some("lead"));
}

fn one_sided(task: Option<&str>, dir: Option<&str>) -> Member {
    Member::Oneharness(OneharnessMember {
        oneharness_config: reference(),
        persona: None,
        task: task.map(ToOwned::to_owned),
        dir: dir.map(ToOwned::to_owned),
        schedule: None,
        background: None,
        pre_turn: Vec::new(),
        deps: Vec::new(),
    })
}

fn build_one_sided(member: &Member, context: &Context<'_>, persona: Option<&str>) -> Prepared {
    build(
        member,
        context,
        Ok(()),
        Sources::SingleSided(SingleSided {
            config: Ok(ONE_FAMILY.to_string()),
            persona: Ok(persona.map(ToOwned::to_owned)),
        }),
        Vec::new(),
    )
}

/// A single-sided member resolves its own persona, and a run with no task at all is
/// refused rather than launched with nothing to do.
#[test]
fn a_single_sided_member_carries_its_persona_and_needs_a_task() {
    let member = one_sided(None, None);
    let prepared = build_one_sided(&member, &context("/graph", "/s"), Some("engineer"));
    let invocation = prepared.invocation.expect("built");
    assert_eq!(invocation.kind, Kind::Oneharness);
    assert_eq!(invocation.persona.as_deref(), Some("engineer"));
    assert_eq!(prepared.files.len(), 1);

    let mut taskless = context("/graph", "/s");
    taskless.task = None;
    let err = build_one_sided(&member, &taskless, None)
        .invocation
        .unwrap_err()
        .message();
    assert!(err.contains("no task"), "{err}");
}

/// The argv a single-sided member is launched with.
fn process_args(member: &Member, context: &Context<'_>) -> Vec<String> {
    match build_one_sided(member, context, None).invocation.expect("built").launch {
        Launch::Process { args, .. } => args,
        other => panic!("expected a child process, got {other:?}"),
    }
}

/// One argv flag's value.
fn flag(args: &[String], name: &str) -> Option<String> {
    args.iter()
        .position(|arg| arg == name)
        .and_then(|at| args.get(at + 1))
        .cloned()
}

/// A single-sided member's own `task` and `dir` are what oneharness is told, and a
/// member carrying neither is told the graph's.
#[test]
fn a_single_sided_member_is_told_its_own_task_and_directory() {
    let graph_wide = one_sided(None, None);
    let own = one_sided(Some("write one status update"), Some("./api"));
    let given = context("/graph", "/s");

    let default = process_args(&graph_wide, &given);
    assert_eq!(flag(&default, "--prompt").as_deref(), Some("do the thing"));
    assert_eq!(
        flag(&default, "--cwd").as_deref(),
        Some("/graph"),
        "a member with no directory of its own must be told the graph's, unchanged"
    );

    let job = process_args(&own, &given);
    assert_eq!(
        flag(&job, "--prompt").as_deref(),
        Some("write one status update"),
        "a member carrying its own task was handed the graph's"
    );
    // Joined onto the graph's directory and made absolute.
    assert_eq!(flag(&job, "--cwd").as_deref(), Some("/graph/api"));
    assert_eq!(
        member_dir(&Some("./api".to_string()), &context("graphs", "/s")),
        "/here/graphs/api"
    );

    // An absolute `dir` is used exactly as written.
    let absolute = one_sided(None, Some("/elsewhere/work"));
    assert_eq!(
        flag(&process_args(&absolute, &given), "--cwd").as_deref(),
        Some("/elsewhere/work")
    );

    // And a member with its own task needs none from the run at all.
    let mut taskless = context("/graph", "/s");
    taskless.task = None;
    assert_eq!(
        flag(&process_args(&own, &taskless), "--prompt").as_deref(),
        Some("write one status update"),
    );
    let err = build_one_sided(&graph_wide, &taskless, None)
        .invocation
        .unwrap_err()
        .message();
    assert!(err.contains("no task"), "{err}");
}

/// A single-sided member carrying `{task}` is handed the run's task where it named
/// it, and everything else about the field is exactly as it was.
#[test]
fn a_members_own_task_takes_the_runs_where_it_names_it() {
    let given = context("/graph", "/s");
    let mut taskless = context("/graph", "/s");
    taskless.task = None;
    let single_sided = |task: &str| one_sided(Some(task), None);

    for (own, expanded, alone) in [
        ("{task}", "do the thing", ""),
        (
            "{task}\n\nReport it, and nothing else.",
            "do the thing\n\nReport it, and nothing else.",
            "\n\nReport it, and nothing else.",
        ),
        (
            "write one status update",
            "write one status update",
            "write one status update",
        ),
        // The one escape, and every other brace left alone.
        ("{{task}}", "{task}", "{task}"),
        (
            "{task} {{task}} {other} {",
            "do the thing {task} {other} {",
            " {task} {other} {",
        ),
    ] {
        assert_eq!(
            flag(&process_args(&single_sided(own), &given), "--prompt").as_deref(),
            Some(expanded),
            "{own:?}"
        );
        assert_eq!(
            flag(&process_args(&single_sided(own), &taskless), "--prompt").as_deref(),
            Some(alone),
            "{own:?} in a run with no task"
        );
        assert_eq!(expand_task(own, "do the thing"), expanded);
    }

    // And under every schema that predates the token, a member's own task is the
    // prose it has always been.
    for older in FIRST_SCHEMA_VERSION..FIRST_TASK_TOKEN_VERSION {
        let mut before = context("/graph", "/s");
        before.task_text = TaskText::under(older);
        assert_eq!(
            flag(
                &process_args(&single_sided("{task}\n\nand report it"), &before),
                "--prompt"
            )
            .as_deref(),
            Some("{task}\n\nand report it"),
            "version {older} expanded a token that schema never had"
        );
    }

    // The run's own task is prose, not a template.
    let mut literal = context("/graph", "/s");
    literal.task = Some("mind the {task} in this sentence");
    assert_eq!(
        flag(&process_args(&one_sided(None, None), &literal), "--prompt").as_deref(),
        Some("mind the {task} in this sentence"),
    );
}

/// A two-party member's own `task` takes the run's on the same terms.
#[test]
fn a_two_party_members_own_task_takes_the_runs_the_same_way() {
    let mut member = two_party(vec![harness_judge()]);
    member.task = Some("{task}\n\nand judge it".to_string());
    let invocation = build_two_party(member, &context("/graph", "/s"))
        .invocation
        .expect("built");
    assert_eq!(
        judge_launch(&invocation).task,
        "do the thing\n\nand judge it"
    );
}

/// A command judge composes onejudge's `split` provider, and an empty command is
/// refused rather than written into a config nothing can run.
#[test]
fn a_command_judge_composes_the_split_provider() {
    let command = |words: &[&str]| {
        vec![JudgeSide::Command(JudgeCommand {
            command: words.iter().map(|word| (*word).to_string()).collect(),
            label: None,
        })]
    };
    let panel = provider_block(
        &command(&["my-provider", "--flag"]),
        true,
        "bypass",
        vec![Ok(String::new())],
        &context("/graph", "/s"),
    );
    assert!(panel.files.is_empty());
    let block = panel.block.expect("a provider");
    let block: serde_json::Value = serde_json::from_str(&block).expect("json");
    assert_eq!(block["kind"].as_str(), Some("split"));
    assert_eq!(block["judge"]["command"][0].as_str(), Some("my-provider"));
    assert_eq!(block["skill"]["stream"].as_bool(), Some(true));

    let err = provider_block(
        &command(&[]),
        true,
        "bypass",
        vec![Ok(String::new())],
        &context("/graph", "/s"),
    )
    .block
    .unwrap_err()
    .message();
    assert!(err.contains("needs a command to run"), "{err}");
}

/// A panel of every kind of judge is one onejudge itself reads, each harness judge
/// under a config file of its own.
#[test]
fn a_panel_is_one_onejudge_reads() {
    let judges = vec![
        JudgeSide::Harness(JudgeHarness {
            oneharness_config: reference(),
            model: Some("gpt-6".to_string()),
            label: Some("critic".to_string()),
        }),
        JudgeSide::Llmlint(JudgeLlmlint {
            kind: LlmlintKind::Llmlint,
            config: Some("./llmlint.yml".to_string()),
            bin: None,
            diff_base: Some("origin/main".to_string()),
            args: vec!["--rule".to_string(), "no_todo".to_string()],
            label: None,
        }),
        JudgeSide::Command(JudgeCommand {
            command: vec!["my-judge".to_string()],
            label: Some("own".to_string()),
        }),
    ];
    let prepared = build_two_party(two_party(judges), &context("/graph", "/s"));
    prepared.invocation.expect("built");
    let paths: Vec<&str> = prepared.files.iter().map(|file| file.path.as_str()).collect();
    assert_eq!(
        paths,
        vec![
            "/s/oneharness.toml",
            "/s/oneharness.judge.critic.toml",
            "/s/onejudge.yaml"
        ]
    );
    assert!(file(&prepared.files, "/s/oneharness.judge.critic.toml").contains("gpt-6"));
    assert!(!file(&prepared.files, "/s/oneharness.toml").contains("gpt-6"));
    let effective = file(&prepared.files, "/s/onejudge.yaml");
    onejudge::cli::Config::from_yaml(effective)
        .unwrap_or_else(|why| panic!("onejudge refused it: {why}\n{effective}"));
}

/// A refusal stops at the first thing that could not be had, and everything before
/// it is still written.
#[test]
fn a_refused_member_names_the_first_thing_it_lacked() {
    let refuse = |why: &str| Error::InvalidConfig(why.to_string());
    let mut sources = two_party_sources(1);
    sources.missing = vec!["user.persona".to_string(), "system_prompt".to_string()];
    let prepared = build(
        &Member::Onejudge(two_party(vec![harness_judge()])),
        &context("/graph", "/s"),
        Ok(()),
        Sources::TwoParty(sources),
        Vec::new(),
    );
    assert!(prepared.files.is_empty());
    assert_eq!(
        prepared.invocation.unwrap_err().message(),
        "invalid config: the config ./base.yaml merges to is incomplete: missing user.persona, \
         system_prompt"
    );

    let mut sources = two_party_sources(1);
    sources.judges = vec![Err(refuse("no such judge config"))];
    let prepared = build(
        &Member::Onejudge(two_party(vec![harness_judge()])),
        &context("/graph", "/s"),
        Ok(()),
        Sources::TwoParty(sources),
        Vec::new(),
    );
    assert_eq!(prepared.files.len(), 1);
    assert_eq!(
        prepared.invocation.unwrap_err().message(),
        "invalid config: no such judge config"
    );

    let prepared = build(
        &one_sided(None, None),
        &context("/graph", "/s"),
        Err(refuse("no catalog")),
        Sources::SingleSided(SingleSided {
            config: Ok(String::new()),
            persona: Ok(None),
        }),
        Vec::new(),
    );
    assert_eq!(
        prepared.invocation.unwrap_err().message(),
        "invalid config: no catalog"
    );
}

// ---- Personas ----
/// A graph's own catalog is what makes an operator's personas dispatchable by name,
/// and a name that is in that catalog *and* in the shipped set is refused rather
/// than quietly resolved to either.
#[test]
fn a_graph_local_catalog_is_reachable_by_name() {
    let shipped_names = vec!["engineer".to_string(), "planner".to_string()];
    let root = catalog_root(
        catalog_path("/here", Some("/graph"), Some("personas")),
        Ok(()),
    )
    .expect("a catalog");
    assert_eq!(root.as_deref(), Some("/graph/personas"));
    let resolve = |name: &str, stat: Stat, shipped: Option<&str>| {
        let entry = catalog_entry("/graph/personas", name);
        let held = catalog_file(name, entry, stat).expect("a stat");
        persona_document(
            name,
            true,
            held,
            shipped.map(ToOwned::to_owned),
            &root,
            &shipped_names,
        )
    };

    let found = resolve("crozier/crozier-corpus", Stat::File, None).expect("resolves");
    assert_eq!(
        found,
        PersonaSource::Catalog("/graph/personas/crozier/crozier-corpus.yaml".to_string())
    );
    assert_eq!(
        file_stem("crozier/crozier-corpus").as_deref(),
        Some("crozier-corpus")
    );

    // A shipped name still resolves through a catalog that does not hold it.
    assert_eq!(
        resolve("planner", Stat::Missing, Some("shipped planner")).expect("resolves"),
        PersonaSource::Shipped("shipped planner".to_string())
    );

    // Until the catalog holds one too, and then neither wins silently.
    let err = resolve("planner", Stat::File, Some("shipped planner"))
        .unwrap_err()
        .message();
    assert!(err.contains("names both"), "{err}");
    assert!(err.contains("planner.yaml"), "{err}");

    // A name in neither is refused with both catalogs named.
    let err = resolve("nobody", Stat::Missing, None).unwrap_err().message();
    assert!(err.contains("holds no nobody.yaml"), "{err}");
    assert!(err.contains("engineer"), "{err}");

    // A path ref is not a catalog lookup at all.
    assert_eq!(
        persona_document(
            "./personas/planner.yaml",
            false,
            None,
            None,
            &root,
            &shipped_names
        )
        .expect("a ref"),
        PersonaSource::Reference
    );
    assert_eq!(
        file_stem("./personas/planner.yaml").as_deref(),
        Some("planner")
    );
}

/// A graph that names no catalog resolves exactly as it did before there were any: a
/// shipped name, or a ref.
#[test]
fn a_graph_with_no_catalog_resolves_the_shipped_personas_and_refs() {
    assert_eq!(catalog_path("/here", Some("/graph"), None), None);
    let shipped = persona_document(
        "planner",
        true,
        None,
        Some("shipped planner".to_string()),
        &None,
        &Vec::new(),
    );
    assert_eq!(
        shipped.expect("resolves"),
        PersonaSource::Shipped("shipped planner".to_string())
    );
    assert_eq!(
        persona_document("mine", true, None, None, &None, &Vec::new()).expect("a ref"),
        PersonaSource::Reference
    );
}

#[test]
fn a_persona_that_is_wrong_says_everything_that_is() {
    let err = load_persona(
        "./lead.yaml",
        "/graph/lead.yaml",
        Persona {
            label: Some("lead".to_string()),
            errors: vec!["no instructions".to_string(), "no persona".to_string()],
        },
    )
    .unwrap_err();
    assert_eq!(
        err.message(),
        "invalid config: /graph/lead.yaml: no instructions; no persona"
    );
    let refused = catalog_file(
        "x",
        "/c/x.yaml".to_string(),
        Stat::Refused("denied".to_string()),
    );
    assert!(refused.unwrap_err().message().contains("denied"));
    let unread = catalog_root(Some("/c".to_string()), Err("gone".to_string()));
    assert!(unread.unwrap_err().message().contains("gone"));
}

// ---- Building every member ----
fn check(task: Option<&'static str>) -> Check<'static> {
    Check {
        here: "/here",
        scratch: "/tmp/validate",
        scratch_env: SCRATCH_ENV,
        graph_dir: Some("/graph"),
        task,
        oneharness_bin: "oneharness",
    }
}

fn graph(version: u32, members: Vec<(&str, Member)>) -> GraphConfig {
    GraphConfig {
        version,
        name: "g".to_string(),
        env: Vec::new(),
        personas: None,
        events: None,
        members: members.into_iter().map(|(name, it)| (name.to_string(), it)).collect(),
    }
}

fn resolved(config: Result<&str, &str>) -> Named {
    Named {
        catalog: Ok(()),
        sources: Sources::SingleSided(SingleSided {
            config: config
                .map(ToOwned::to_owned)
                .map_err(|why| Error::InvalidConfig(why.to_string())),
            persona: Ok(None),
        }),
        refs: Vec::new(),
    }
}

/// Every member is built, and the first that cannot be refuses the graph by name.
#[test]
fn a_graph_is_accepted_when_every_member_can_be_built() {
    let members = || {
        vec![
            ("a", one_sided(None, None)),
            ("b", one_sided(Some("mine"), None)),
            ("c", Member::Onejudge(two_party(vec![harness_judge()]))),
        ]
    };
    let judged = || Named {
        catalog: Ok(()),
        sources: Sources::TwoParty(two_party_sources(1)),
        refs: Vec::new(),
    };
    let latest = graph(FIRST_TASK_TOKEN_VERSION, members());
    let all = || vec![resolved(Ok(ONE_FAMILY)), resolved(Ok(ONE_FAMILY)), judged()];
    assert!(build_members(&latest, &check(Some("t")), all()).is_ok());
    assert!(build_members(&graph(1, Vec::new()), &check(None), Vec::new()).is_ok());

    // The first in the graph's order, whatever follows it.
    let broken = vec![
        resolved(Ok(ONE_FAMILY)),
        resolved(Err("no such file")),
        Named {
            catalog: Err(Error::InvalidConfig("no catalog".to_string())),
            ..judged()
        },
    ];
    assert_eq!(
        build_members(&latest, &check(Some("t")), broken).unwrap_err().message(),
        "invalid config: member \"b\": invalid config: no such file"
    );
    let uncatalogued = vec![
        resolved(Ok(ONE_FAMILY)),
        resolved(Ok(ONE_FAMILY)),
        Named {
            catalog: Err(Error::InvalidConfig("no catalog".to_string())),
            ..judged()
        },
    ];
    assert_eq!(
        build_members(&latest, &check(Some("t")), uncatalogued).unwrap_err().message(),
        "invalid config: member \"c\": invalid config: no catalog"
    );

    // A member with neither a task of its own nor the run's is refused.
    let taskless = build_members(&latest, &check(None), all()).unwrap_err().message();
    assert!(taskless.starts_with("invalid config: member \"a\": "), "{taskless}");
}

/// The files of a panel's harness judges are told apart by their names.
#[test]
fn the_files_of_a_panel_differ() {
    let named = |label: &str| {
        JudgeSide::Harness(JudgeHarness {
            oneharness_config: reference(),
            model: None,
            label: Some(label.to_string()),
        })
    };
    let member = two_party(vec![harness_judge(), harness_judge(), named("critic")]);
    let prepared = build_two_party(member, &context("/graph", "/s"));
    let paths: Vec<&str> = prepared.files.iter().map(|file| file.path.as_str()).collect();
    assert_eq!(
        paths,
        vec![
            "/s/oneharness.toml",
            "/s/oneharness.judge.oneharness.toml",
            "/s/oneharness.judge.oneharness-2.toml",
            "/s/oneharness.judge.critic.toml",
            "/s/onejudge.yaml",
        ]
    );
}
