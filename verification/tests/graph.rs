use oneagentgraph::config::{
    is_judge_label, is_member_name, validate, AgentSide, ConfigRef, Events, GraphConfig,
    JudgeCommand, JudgeHarness, JudgeLlmlint, JudgeSide, LlmlintKind, Member, OneharnessMember,
    OnejudgeMember, PreTurn, Schedule, TaskText, DEFAULT_PRE_TURN_SECONDS,
    FIRST_BACKGROUND_VERSION, FIRST_EVENT_FILTER_VERSION, FIRST_PERSONA_CATALOG_VERSION,
    FIRST_PRE_TURN_VERSION, FIRST_SCHEMA_VERSION, FIRST_START_AFTER_VERSION,
    FIRST_TWO_PARTY_JOB_VERSION, MAX_PRE_TURN_COMMANDS, MAX_PRE_TURN_SECONDS,
    MAX_SCHEDULE_SECONDS, SCHEMA_VERSION,
};
use oneagentgraph::error::Error;
use oneagentgraph::event::{EventFilter, LabelValue, Matcher, Source};
use oneagentgraph::judge_sides::{
    read_judges, write_judges, write_side, written_alone, Entry, Written,
};
use serde_json::Value;

// ---- Reading a document ----
fn lines(parts: &[&str]) -> String {
    let mut whole = parts.join("\n");
    whole.push('\n');
    whole
}

fn text(value: &Value, key: &str) -> Option<String> {
    value.get(key).map(|it| it.as_str().expect("a string").to_string())
}

fn texts(value: &Value, key: &str) -> Vec<String> {
    value.get(key).map_or_else(Vec::new, |list| {
        list.as_array()
            .expect("a list")
            .iter()
            .map(|it| it.as_str().expect("a string").to_string())
            .collect()
    })
}

/// The first key of a mapping that is none of `known`, as a document reader would
/// refuse it.
fn unknown(value: &Value, known: &[&str]) -> Option<String> {
    value
        .as_object()
        .expect("a mapping")
        .keys()
        .find(|key| !known.contains(&key.as_str()))
        .map(|key| format!("unknown field `{key}`"))
}

fn side(value: &Value) -> (Entry, Result<JudgeSide, String>) {
    let Some(fields) = value.as_object() else {
        return (Entry::Other(value.to_string()), Err(String::new()));
    };
    let entry = Entry::Mapping {
        keys: fields.keys().cloned().collect(),
        kind: fields.get("kind").map(|kind| match kind.as_str() {
            Some(kind) => LabelValue::Text(kind.to_string()),
            None => LabelValue::Other(kind.to_string()),
        }),
    };
    let read = if fields.contains_key("oneharness_config") {
        match unknown(value, &["oneharness_config", "model", "label"]) {
            Some(why) => Err(why),
            None => Ok(JudgeSide::Harness(JudgeHarness {
                oneharness_config: ConfigRef(text(value, "oneharness_config").expect("a ref")),
                model: text(value, "model"),
                label: text(value, "label"),
            })),
        }
    } else if fields.contains_key("kind") {
        match unknown(value, &["kind", "config", "bin", "diff_base", "args", "label"]) {
            Some(why) => Err(why),
            None => Ok(JudgeSide::Llmlint(JudgeLlmlint {
                kind: LlmlintKind::Llmlint,
                config: text(value, "config"),
                bin: text(value, "bin"),
                diff_base: text(value, "diff_base"),
                args: texts(value, "args"),
                label: text(value, "label"),
            })),
        }
    } else {
        match unknown(value, &["command", "label"]) {
            Some(why) => Err(why),
            None => Ok(JudgeSide::Command(JudgeCommand {
                command: texts(value, "command"),
                label: text(value, "label"),
            })),
        }
    };
    (entry, read)
}

fn judges(value: &Value) -> Result<Vec<JudgeSide>, String> {
    read_judges(if let Some(list) = value.as_array() {
        Written::List(list.iter().map(side).collect())
    } else if value.is_object() {
        let (entry, read) = side(value);
        Written::One(entry, read)
    } else {
        Written::Neither(value.to_string())
    })
}

fn agent_side(value: &Value) -> AgentSide {
    AgentSide {
        oneharness_config: ConfigRef(text(value, "oneharness_config").expect("a ref")),
        model: text(value, "model"),
        stream: value.get("stream").and_then(Value::as_bool).unwrap_or(true),
    }
}

fn schedule(value: &Value) -> Option<Schedule> {
    value.get("schedule").map(|it| Schedule {
        every: it.get("every").and_then(Value::as_u64).expect("seconds"),
        start_after: it.get("start_after").map(|it| it.as_u64().expect("seconds")),
        resettable: it.get("resettable").and_then(Value::as_bool).unwrap_or(false),
    })
}

fn member(value: &Value) -> Result<Member, String> {
    let persona = text(value, "persona").map(ConfigRef);
    let background = value.get("background").map(|it| it.as_bool().expect("a bool"));
    if text(value, "kind").expect("a kind") == "onejudge" {
        let known = [
            "kind", "base_config", "persona", "task", "agent", "judge", "mode", "max_turns", "dir",
            "schedule", "background", "deps",
        ];
        if let Some(why) = unknown(value, &known) {
            return Err(why);
        }
        Ok(Member::Onejudge(OnejudgeMember {
            base_config: ConfigRef(text(value, "base_config").expect("a ref")),
            persona,
            task: text(value, "task"),
            agent: agent_side(value.get("agent").expect("an agent")),
            judge: judges(value.get("judge").expect("a judge"))?,
            mode: text(value, "mode").expect("a mode"),
            max_turns: value
                .get("max_turns")
                .map(|it| u32::try_from(it.as_u64().expect("turns")).expect("turns")),
            dir: text(value, "dir"),
            schedule: schedule(value),
            background,
            deps: texts(value, "deps"),
        }))
    } else {
        Ok(Member::Oneharness(OneharnessMember {
            oneharness_config: ConfigRef(text(value, "oneharness_config").expect("a ref")),
            persona,
            task: text(value, "task"),
            dir: text(value, "dir"),
            schedule: schedule(value),
            background,
            pre_turn: value.get("pre_turn").map_or_else(Vec::new, |views| {
                views
                    .as_array()
                    .expect("views")
                    .iter()
                    .map(|view| PreTurn {
                        command: texts(view, "command"),
                        label: text(view, "label"),
                        timeout: view.get("timeout").map(|it| it.as_u64().expect("seconds")),
                    })
                    .collect()
            }),
            deps: texts(value, "deps"),
        }))
    }
}

fn matchers(value: &Value, key: &str) -> Vec<Matcher> {
    value.get(key).map_or_else(Vec::new, |list| {
        list.as_array()
            .expect("a list")
            .iter()
            .map(|it| Matcher {
                source: text(it, "source").map(|source| match source.as_str() {
                    "vcs" => Source::Vcs,
                    "pipeline" => Source::Pipeline,
                    _ => Source::Agentgraph,
                }),
                kind: text(it, "kind"),
                member: text(it, "member"),
                ..Matcher::default()
            })
            .collect()
    })
}

fn read(document: &str) -> Result<GraphConfig, String> {
    let value: Value = serde_norway::from_str(document).expect("yaml");
    let mut members: Vec<(String, Member)> = Vec::new();
    for (name, it) in value.get("members").and_then(Value::as_object).expect("members") {
        members.push((name.clone(), member(it)?));
    }
    members.sort_by(|a, b| a.0.cmp(&b.0));
    Ok(GraphConfig {
        version: u32::try_from(value.get("version").and_then(Value::as_u64).expect("a version"))
            .expect("a version"),
        name: text(&value, "name").expect("a name"),
        env: Vec::new(),
        personas: text(&value, "personas"),
        events: value.get("events").map(|events| Events {
            filter: events.get("filter").map(|filter| EventFilter {
                included: matchers(filter, "include"),
                excluded: matchers(filter, "exclude"),
            }),
        }),
        members,
    })
}

fn parse(document: &str) -> GraphConfig {
    read(document).expect("a graph")
}

fn named<'a>(graph: &'a GraphConfig, name: &str) -> &'a Member {
    &graph.members.iter().find(|entry| entry.0 == name).expect("a member").1
}

fn refusal(document: &str) -> String {
    validate(&parse(document)).expect_err("refused").message()
}

fn one_member() -> String {
    lines(&[
        "version: 1",
        "name: g",
        "members:",
        "  build:",
        "    kind: oneharness",
        "    oneharness_config: ./a.toml",
    ])
}

fn two_party(version: u32, name: &str, own: &str) -> String {
    format!(
        "version: {version}\nname: g\nmembers:\n  {name}:\n    kind: onejudge\n    \
         base_config: ./b.yaml\n    mode: bypass\n    agent: {{oneharness_config: ./a.toml}}\n{own}"
    )
}

const HARNESS_JUDGE: &str = "    judge: {oneharness_config: ./j.toml}\n";

// ---- What a document may say ----
/// A graph this build can read passes; one from another schema version says which
/// version it is.
#[test]
fn a_graph_of_another_version_is_refused_by_version() {
    assert!(validate(&parse(&one_member())).is_ok());
    for readable in FIRST_SCHEMA_VERSION..=SCHEMA_VERSION {
        let document = one_member().replace("version: 1", &format!("version: {readable}"));
        assert!(validate(&parse(&document)).is_ok(), "{document}");
    }
    let ahead = format!("version: {}", SCHEMA_VERSION + 1);
    let err = refusal(&one_member().replace("version: 1", &ahead));
    assert!(
        err.contains(&format!(
            "versions {FIRST_SCHEMA_VERSION} through {SCHEMA_VERSION}"
        )),
        "{err}"
    );
    assert_eq!(
        err,
        "invalid config: version 10 is not a graph schema this build reads; it reads versions 1 \
         through 9"
    );
}

#[test]
fn onejudge_dependencies_require_version_two_without_breaking_version_one_graphs() {
    let version_one = format!(
        "{}{}",
        lines(&[
            "version: 1",
            "name: g",
            "members:",
            "  build:",
            "    kind: oneharness",
            "    oneharness_config: ./a.toml",
            "  w:",
            "    kind: onejudge",
            "    base_config: ./b.yaml",
            "    mode: bypass",
            "    agent: {oneharness_config: ./a.toml}",
        ]),
        HARNESS_JUDGE
    );
    assert!(validate(&parse(&version_one)).is_ok());

    let with_deps = format!("{version_one}    deps: [build]\n");
    let error = refusal(&with_deps);
    assert!(error.contains("requires graph schema version 2"), "{error}");
    assert!(validate(&parse(&with_deps.replace("version: 1", "version: 2"))).is_ok());
}

/// A single-sided member may carry its own job, and a document that declares an
/// older schema is refused by the field's name.
#[test]
fn a_single_sided_members_own_job_requires_the_schema_that_has_it() {
    let base = lines(&[
        "version: 3",
        "name: g",
        "members:",
        "  check_in:",
        "    kind: oneharness",
        "    oneharness_config: ./a.toml",
    ]);
    for own in ["    task: send one update\n", "    dir: ./api\n"] {
        let document = format!("{base}{own}");
        assert!(validate(&parse(&document)).is_ok(), "{document}");
        for older in ["version: 1", "version: 2"] {
            let older = document.replace("version: 3", older);
            let err = refusal(&older);
            assert!(
                err.contains("requires graph schema version 3"),
                "{older}: {err}"
            );
        }
    }
    // And a member with neither keeps validating under every schema this build
    // reads.
    for version in FIRST_SCHEMA_VERSION..=SCHEMA_VERSION {
        let unchanged = base.replace("version: 3", &format!("version: {version}"));
        assert!(validate(&parse(&unchanged)).is_ok(), "{unchanged}");
    }

    // An empty field of either kind is a typo, not a request for the graph's.
    for (given, expected) in [
        ("    dir: ''\n", "names no directory"),
        ("    task: ''\n", "an empty one is no job"),
        ("    task: '   '\n", "an empty one is no job"),
    ] {
        let err = refusal(&format!("{base}{given}"));
        assert!(err.contains(expected), "{given}: {err}");
    }
}

/// From the schema that has `start_after`, a schedule naming none waits one whole
/// interval; under an older one it waits none.
#[test]
fn a_schedules_first_turn_waits_an_interval_only_from_the_schema_that_has_it() {
    let scheduled = |version: u32, schedule: &str| -> Schedule {
        let document = format!(
            "{}    schedule: {schedule}\n",
            lines(&[
                &format!("version: {version}"),
                "name: g",
                "members:",
                "  ticker:",
                "    kind: oneharness",
                "    oneharness_config: ./a.toml",
            ])
        );
        let graph = parse(&document);
        validate(&graph).unwrap_or_else(|err| panic!("{document}: {}", err.message()));
        let Member::Oneharness(member) = named(&graph, "ticker") else {
            panic!("a scheduled member is single-sided")
        };
        member.schedule.expect("the member is scheduled")
    };

    for older in FIRST_SCHEMA_VERSION..FIRST_START_AFTER_VERSION {
        let inherited = scheduled(older, "{every: 1800}");
        assert_eq!(inherited.start_after, None);
        assert_eq!(
            inherited.first_turn_after(older),
            0,
            "version {older} moved under a document that never asked it to"
        );
    }

    let current = SCHEMA_VERSION;
    let inherited = scheduled(current, "{every: 1800}");
    assert_eq!(inherited.start_after, None);
    assert_eq!(inherited.first_turn_after(current), 1800);
    assert_eq!(
        scheduled(current, "{every: 1800, start_after: 0}").first_turn_after(current),
        0
    );
    assert_eq!(
        scheduled(current, "{every: 1800, start_after: 5}").first_turn_after(current),
        5
    );
    // Longer than the cadence is a legal thing to ask for, so it is carried rather
    // than clamped.
    assert_eq!(
        scheduled(current, "{every: 60, start_after: 600}").first_turn_after(current),
        600
    );
}

/// A document declaring a schema that predates `start_after` is refused by the
/// field's name.
#[test]
fn start_after_requires_the_schema_that_has_it() {
    let document = |version: u32| {
        lines(&[
            &format!("version: {version}"),
            "name: g",
            "members:",
            "  ticker:",
            "    kind: oneharness",
            "    oneharness_config: ./a.toml",
            "    schedule: {every: 1800, start_after: 30}",
        ])
    };
    assert!(validate(&parse(&document(SCHEMA_VERSION))).is_ok());
    for older in FIRST_SCHEMA_VERSION..FIRST_START_AFTER_VERSION {
        let err = refusal(&document(older));
        assert!(
            err.contains(&format!(
                "requires graph schema version {FIRST_START_AFTER_VERSION}"
            )),
            "version {older}: {err}"
        );
        assert!(err.contains("start_after"), "{err}");
    }
}

/// A span longer than any run is refused by name, on both of a schedule's fields
/// and however it was arrived at.
#[test]
fn a_schedule_longer_than_any_run_is_refused() {
    let document = |schedule: &str| {
        lines(&[
            &format!("version: {SCHEMA_VERSION}"),
            "name: g",
            "members:",
            "  ticker:",
            "    kind: oneharness",
            "    oneharness_config: ./a.toml",
            &format!("    schedule: {schedule}"),
        ])
    };
    let ceiling = MAX_SCHEDULE_SECONDS;
    assert!(validate(&parse(&document(&format!("{{every: {ceiling}}}")))).is_ok());
    for (schedule, field) in [
        (format!("{{every: {}}}", ceiling + 1), "every"),
        (
            format!("{{every: 60, start_after: {}}}", u64::MAX),
            "start_after",
        ),
        (format!("{{every: {}}}", u64::MAX), "every"),
    ] {
        let err = refusal(&document(&schedule));
        assert!(err.contains(field), "{schedule}: {err}");
        assert!(err.contains("longer than any run"), "{schedule}: {err}");
    }
}

/// A name that would leave the run's own directory is refused before anything is
/// created under it.
#[test]
fn a_member_name_that_would_leave_the_run_directory_is_refused() {
    for escape in ["../elsewhere", "a/b", "a\\b", "a b"] {
        let mut graph = parse(&one_member());
        graph.members[0].0 = escape.to_string();
        let err = validate(&graph).unwrap_err().message();
        assert!(err.contains("member name"), "{escape:?}: {err}");
    }
    assert!(is_member_name("worker_2-a"));
    assert!(!is_member_name(""));
    assert!(is_judge_label("a-B_1"));
    assert!(!is_judge_label("lint run"));
}

/// The shapes that are legal YAML but not a runnable graph.
#[test]
fn a_graph_that_could_never_run_is_refused_with_the_reason() {
    for (document, expected) in [
        (
            "version: 1\nname: ' '\nmembers: {}\n".to_string(),
            "a graph needs a name",
        ),
        (
            "version: 1\nname: g\nmembers: {}\n".to_string(),
            "has no members",
        ),
        (
            lines(&[
                "version: 1",
                "name: g",
                "members:",
                "  a:",
                "    kind: oneharness",
                "    oneharness_config: ./a.toml",
                "    schedule: {every: 0}",
            ]),
            "never stops firing",
        ),
    ] {
        let err = refusal(&document);
        assert!(err.contains(expected), "{document}: {err}");
    }
}

/// A two-party member's own refusals: no posture, no turn, no judge command.
#[test]
fn a_two_party_member_that_could_never_run_is_refused() {
    let base = two_party(1, "w", HARNESS_JUDGE);
    assert!(validate(&parse(&base)).is_ok());
    for (document, expected) in [
        (base.replace("mode: bypass", "mode: ' '"), "names none"),
        (format!("{base}    max_turns: 0\n"), "no turn at all"),
        (
            base.replace(
                "judge: {oneharness_config: ./j.toml}",
                "judge: {command: []}",
            ),
            "needs a command to run",
        ),
    ] {
        let err = refusal(&document);
        assert!(err.contains(expected), "{document}: {err}");
    }
}

/// A two-party member's `judge:` reads as one list whether it was written as one
/// side or as several, each entry told apart by the one field its shape requires.
#[test]
fn a_judge_list_reads_into_one_representation_and_writes_back_as_it_came() {
    let single = parse(&two_party(1, "w", HARNESS_JUDGE));
    let Member::Onejudge(member) = named(&single, "w") else {
        panic!("w is onejudge")
    };
    assert_eq!(
        member.judge,
        vec![JudgeSide::Harness(JudgeHarness {
            oneharness_config: ConfigRef("./j.toml".into()),
            model: None,
            label: None,
        })]
    );
    // A list of one is written back as the mapping it came from.
    assert!(written_alone(&member.judge));

    let stacked = parse(&two_party(
        1,
        "w",
        &lines(&[
            "    judge:",
            "      - oneharness_config: ./j.toml",
            "        model: opus",
            "        label: critic",
            "      - kind: llmlint",
            "        config: ./llmlint.yml",
            "        bin: /opt/llmlint",
            "        diff_base: origin/main",
            "        args: [--rule, no_todo]",
            "        label: lint",
            "      - command: [my-judge, --flag]",
        ]),
    ));
    validate(&stacked).expect("a stacked panel validates");
    let Member::Onejudge(member) = named(&stacked, "w") else {
        panic!("w is onejudge")
    };
    assert_eq!(
        member.judge,
        vec![
            JudgeSide::Harness(JudgeHarness {
                oneharness_config: ConfigRef("./j.toml".into()),
                model: Some("opus".into()),
                label: Some("critic".into()),
            }),
            JudgeSide::Llmlint(JudgeLlmlint {
                kind: LlmlintKind::Llmlint,
                config: Some("./llmlint.yml".into()),
                bin: Some("/opt/llmlint".into()),
                diff_base: Some("origin/main".into()),
                args: vec!["--rule".into(), "no_todo".into()],
                label: Some("lint".into()),
            }),
            JudgeSide::Command(JudgeCommand {
                command: vec!["my-judge".into(), "--flag".into()],
                label: None,
            }),
        ]
    );
    assert_eq!(
        member.judge.iter().map(JudgeSide::kind).collect::<Vec<_>>(),
        vec!["oneharness", "llmlint", "command"]
    );
    assert!(!written_alone(&member.judge));
    assert_eq!(member.judge[1].label().as_deref(), Some("lint"));
}

/// A list that is written is the one side's mapping, or a list of mappings in order, and
/// reads back as the list.
#[test]
fn a_written_judge_list_reads_back() {
    let harness = || {
        JudgeSide::Harness(JudgeHarness {
            oneharness_config: ConfigRef("./j.toml".into()),
            model: Some("opus".into()),
            label: None,
        })
    };
    let lint = || {
        JudgeSide::Llmlint(JudgeLlmlint {
            kind: LlmlintKind::Llmlint,
            config: None,
            bin: Some("/opt/llmlint".into()),
            diff_base: None,
            args: vec!["--rule".into()],
            label: Some("lint".into()),
        })
    };
    let command = || {
        JudgeSide::Command(JudgeCommand {
            command: Vec::new(),
            label: None,
        })
    };
    let keys = |side: &JudgeSide| match write_side(side) {
        Entry::Mapping { keys, .. } => keys,
        Entry::Other(text) => panic!("not a mapping: {text}"),
    };
    assert_eq!(keys(&harness()), vec!["oneharness_config", "model"]);
    assert_eq!(keys(&lint()), vec!["kind", "bin", "args", "label"]);
    assert_eq!(keys(&command()), vec!["command"]);

    assert!(matches!(write_judges(vec![lint()]), Written::One(_, Ok(side)) if side == lint()));
    assert!(matches!(write_judges(Vec::new()), Written::List(list) if list.is_empty()));
    for sides in [0, 1, 2, 3] {
        let list = || vec![harness(), lint(), command()].into_iter().take(sides).collect();
        assert_eq!(read_judges(write_judges(list())), Ok(list()));
    }
}

/// A side of another shape than its entry's keys say, and one that leaves a key of its
/// entry unread, are refused.
#[test]
fn a_side_is_of_the_shape_its_entry_says() {
    let entry = |keys: &[&str]| Entry::Mapping {
        keys: keys.iter().map(|key| (*key).to_string()).collect(),
        kind: None,
    };
    let command = || {
        Ok(JudgeSide::Command(JudgeCommand {
            command: vec!["x".to_string()],
            label: None,
        }))
    };
    let refused = JudgeSide::classify(&entry(&["oneharness_config"]), command()).unwrap_err();
    assert_eq!(refused, "a harness side: its fields were read as a command side");
    let refused = JudgeSide::classify(&entry(&["command", "bin"]), command()).unwrap_err();
    assert_eq!(refused, "a command side: unknown field `bin`");
    assert_eq!(JudgeSide::classify(&entry(&["command"]), command()), command());
}

/// A judge entry that is none of the three shapes is refused naming the entry, and
/// a shape's own unknown field is refused naming that shape.
#[test]
fn a_judge_entry_that_is_none_of_the_three_shapes_is_refused_naming_it() {
    for (judge, expected) in [
        (
            "[{oneharness_config: ./j.toml}, {foo: 1, bar: 2}]",
            "judge entry 2: {foo, bar} is none of the three judge shapes",
        ),
        (
            "[{kind: oneharness, judge_config: ./j.toml}]",
            "judge entry 1: `kind: oneharness` names no judge shape",
        ),
        (
            "[{kind: llmlint, command: [x]}]",
            "judge entry 1: an llmlint side: unknown field `command`",
        ),
        (
            "{oneharness_config: ./j.toml, command: [x]}",
            "judge: a harness side: unknown field `command`",
        ),
        (
            "{label: critic}",
            "judge: {label} is none of the three judge shapes",
        ),
        ("3", "judge: 3 is neither one side nor a list of sides"),
        ("[1]", "judge entry 1: 1 is not a mapping"),
    ] {
        let document = two_party(1, "w", &format!("    judge: {judge}\n"));
        let err = read(&document).expect_err(&format!("{judge} must be refused"));
        assert!(err.contains(expected), "{judge}: {err}");
    }
}

/// A panel's own pre-launch refusals, each naming the member and, in a list, the
/// entry.
#[test]
fn a_panel_that_could_never_run_is_refused_naming_the_entry() {
    let document = |judge: &str| two_party(1, "w", &format!("    judge: {judge}\n"));
    validate(&parse(&document(
        "[{oneharness_config: ./j.toml, label: a-B_1}, {kind: llmlint}, {command: [x]}]",
    )))
    .expect("a labelled stack validates");
    for (judge, expected) in [
        ("[]", "member \"w\": `judge` names no side"),
        (
            "[{command: [x]}, {command: []}]",
            "member \"w\": judge entry 2: a command judge needs a command to run",
        ),
        (
            "[{command: [x]}, {command: ['  ']}]",
            "member \"w\": judge entry 2: a command judge needs a command to run",
        ),
        (
            "[{command: [x, \"a\\0b\"]}]",
            "member \"w\": judge entry 1: \"a\\0b\" carries a NUL",
        ),
        (
            "[{command: [x]}, {kind: llmlint, label: 'lint run'}]",
            "member \"w\": judge entry 2: label \"lint run\"",
        ),
        (
            "{oneharness_config: ./j.toml, label: ''}",
            "member \"w\": judge entry 1: label \"\"",
        ),
    ] {
        let err = refusal(&document(judge));
        assert!(err.contains(expected), "{judge}: {err}");
    }
}

/// A graph may name a filter over its own stream from the schema that has one.
#[test]
fn an_events_block_requires_the_schema_that_has_it() {
    let document = |version: u32| {
        lines(&[
            &format!("version: {version}"),
            "name: g",
            "events:",
            "  filter:",
            "    exclude: [{kind: turn-activity}]",
            "members:",
            "  build:",
            "    kind: oneharness",
            "    oneharness_config: ./a.toml",
        ])
    };
    let graph = parse(&document(FIRST_EVENT_FILTER_VERSION));
    validate(&graph).expect("the schema that has the block accepts it");
    assert_eq!(
        graph
            .events
            .and_then(|events| events.filter)
            .expect("the block carries a filter")
            .excluded
            .len(),
        1
    );
    for older in FIRST_SCHEMA_VERSION..FIRST_EVENT_FILTER_VERSION {
        let err = refusal(&document(older));
        assert!(err.contains("`events`"), "version {older}: {err}");
        assert!(
            err.contains(&format!(
                "requires graph schema version {FIRST_EVENT_FILTER_VERSION}"
            )),
            "version {older}: {err}"
        );
    }
    // And a graph naming no block validates under every schema this build reads.
    for version in FIRST_SCHEMA_VERSION..=SCHEMA_VERSION {
        let unchanged = one_member().replace("version: 1", &format!("version: {version}"));
        let graph = parse(&unchanged);
        assert_eq!(graph.events, None);
        assert!(validate(&graph).is_ok(), "{unchanged}");
    }
}

/// A graph may name its own persona catalog from the schema that has one.
#[test]
fn a_persona_catalog_requires_the_schema_that_has_it() {
    let document = |version: u32, root: &str| {
        lines(&[
            &format!("version: {version}"),
            "name: g",
            &format!("personas: {root}"),
            "members:",
            "  build:",
            "    kind: oneharness",
            "    oneharness_config: ./a.toml",
            "    persona: crozier/crozier-corpus",
        ])
    };
    let graph = parse(&document(FIRST_PERSONA_CATALOG_VERSION, "./personas"));
    validate(&graph).expect("the schema that has the key accepts it");
    assert_eq!(graph.personas.as_deref(), Some("./personas"));

    for older in FIRST_SCHEMA_VERSION..FIRST_PERSONA_CATALOG_VERSION {
        let err = refusal(&document(older, "./personas"));
        assert!(err.contains("`personas`"), "{older}: {err}");
        assert!(
            err.contains(&format!(
                "requires graph schema version {FIRST_PERSONA_CATALOG_VERSION}"
            )),
            "{older}: {err}"
        );
    }

    // Present and empty is a typo, not a request for the shipped set.
    let err = refusal(&document(SCHEMA_VERSION, "''"));
    assert!(err.contains("names no directory"), "{err}");

    for version in FIRST_SCHEMA_VERSION..=SCHEMA_VERSION {
        let unchanged = one_member().replace("version: 1", &format!("version: {version}"));
        let graph = parse(&unchanged);
        assert_eq!(graph.personas, None);
        assert!(validate(&graph).is_ok(), "{unchanged}");
    }
}

/// A filter a run could not honour is refused with the offending matcher named,
/// before anything is launched.
#[test]
fn a_filter_that_could_match_nothing_is_refused_with_the_matcher_named() {
    let document = |filter: &str| {
        format!(
            "version: {SCHEMA_VERSION}\nname: g\nevents:\n  filter:\n{filter}members:\n  build:\n    \
             kind: oneharness\n    oneharness_config: ./a.toml\n"
        )
    };
    for (filter, expected) in [
        ("    exclude: [{}]\n", "exclude[0] {}"),
        ("    include: [{kind: ''}]\n", r#"include[0] {"kind":""}"#),
        (
            "    include: [{kind: 'turn-*'}, {member: ' '}]\n",
            r#"include[1] {"member":" "}"#,
        ),
    ] {
        let err = refusal(&document(filter));
        assert!(err.contains("`events.filter`"), "{err}");
        assert!(err.contains(expected), "{filter}: {err}");
    }
    assert!(validate(&parse(&document("    include: [{kind: '*'}]\n"))).is_ok());
}

/// A member's pre-turn views are a schema-gated field.
#[test]
fn pre_turn_views_require_the_schema_that_has_them() {
    let document = |version: u32| {
        lines(&[
            &format!("version: {version}"),
            "name: g",
            "members:",
            "  watcher:",
            "    kind: oneharness",
            "    oneharness_config: ./a.toml",
            "    pre_turn:",
            "      - {command: [queue-depth, --json], label: queue}",
        ])
    };
    let graph = parse(&document(FIRST_PRE_TURN_VERSION));
    validate(&graph).expect("the schema that has the field accepts it");
    let Member::Oneharness(watcher) = named(&graph, "watcher") else {
        panic!("a single-sided member declares the views")
    };
    assert_eq!(
        watcher.pre_turn,
        vec![PreTurn {
            command: vec!["queue-depth".into(), "--json".into()],
            label: Some("queue".into()),
            timeout: None,
        }]
    );
    // What an omitted `timeout` and an omitted `label` mean.
    assert_eq!(watcher.pre_turn[0].seconds(), DEFAULT_PRE_TURN_SECONDS);
    assert_eq!(watcher.pre_turn[0].view(), "queue");
    assert_eq!(
        PreTurn {
            command: vec!["queue-depth".into()],
            label: None,
            timeout: Some(5),
        }
        .view(),
        "queue-depth"
    );

    for older in FIRST_SCHEMA_VERSION..FIRST_PRE_TURN_VERSION {
        let err = refusal(&document(older));
        assert!(err.contains("`pre_turn`"), "{older}: {err}");
        assert!(
            err.contains(&format!(
                "requires graph schema version {FIRST_PRE_TURN_VERSION}"
            )),
            "{older}: {err}"
        );
    }

    // And a member declaring none validates under every schema this build reads.
    for version in FIRST_SCHEMA_VERSION..=SCHEMA_VERSION {
        let unchanged = one_member().replace("version: 1", &format!("version: {version}"));
        let graph = parse(&unchanged);
        let Member::Oneharness(build) = named(&graph, "build") else {
            panic!("the member is single-sided")
        };
        assert!(build.pre_turn.is_empty());
        assert!(validate(&graph).is_ok(), "{unchanged}");
    }
}

/// A view that could never run, or could never be waited on, is refused with the
/// reason — before any of it reaches a process.
#[test]
fn a_pre_turn_view_a_run_could_not_honour_is_refused() {
    let document = |views: &str| {
        format!(
            "version: {SCHEMA_VERSION}\nname: g\nmembers:\n  watcher:\n    kind: oneharness\n    \
             oneharness_config: ./a.toml\n    pre_turn:\n{views}"
        )
    };
    for (views, expected) in [
        ("      - {command: []}\n", "an empty one names none"),
        ("      - {command: ['  ']}\n", "an empty one names none"),
        ("      - {command: [\"q\\0z\"]}\n", "carries a NUL"),
        (
            "      - {command: [q], label: ' '}\n",
            "cannot be blank or carry a control character",
        ),
        (
            "      - {command: [q], label: \"a\\nb\"}\n",
            "cannot be blank or carry a control character",
        ),
        (
            "      - {command: [q], timeout: 0}\n",
            "is not a bound this view can run under",
        ),
        (
            &format!(
                "      - {{command: [q], timeout: {}}}\n",
                MAX_PRE_TURN_SECONDS + 1
            ),
            "is not a bound this view can run under",
        ),
        (
            &"      - {command: [q]}\n".repeat(MAX_PRE_TURN_COMMANDS + 1),
            "the ceiling is",
        ),
    ] {
        let err = refusal(&document(views));
        assert!(err.contains(expected), "{views}: {err}");
        assert!(err.contains("watcher"), "{views}: {err}");
    }
    // The ceiling itself is a list a member may have, and a timeout at the ceiling
    // is one it may name.
    assert!(validate(&parse(&document(
        &"      - {command: [q]}\n".repeat(MAX_PRE_TURN_COMMANDS)
    )))
    .is_ok());
    assert!(validate(&parse(&document(&format!(
        "      - {{command: [q], timeout: {MAX_PRE_TURN_SECONDS}}}\n"
    ))))
    .is_ok());
}

/// A two-party member may carry its own `dir` and `schedule` from the schema that
/// has them.
#[test]
fn a_two_party_members_own_job_requires_the_schema_that_has_it() {
    let document =
        |version: u32, own: &str| two_party(version, "monitor", &format!("{HARNESS_JUDGE}{own}"));
    let graph = parse(&document(
        FIRST_TWO_PARTY_JOB_VERSION,
        "    dir: ./api\n    schedule: {every: 300, start_after: 0, resettable: true}\n",
    ));
    validate(&graph).expect("the schema that has the fields accepts them");
    let Member::Onejudge(monitor) = named(&graph, "monitor") else {
        panic!("the member is two-party")
    };
    assert_eq!(monitor.dir.as_deref(), Some("./api"));
    assert_eq!(
        monitor.schedule,
        Some(Schedule {
            every: 300,
            start_after: Some(0),
            resettable: true,
        })
    );
    // Through the accessors every caller reads them by.
    assert_eq!(named(&graph, "monitor").schedule(), monitor.schedule);
    assert_eq!(named(&graph, "monitor").dir(), &monitor.dir);

    for (field, own) in [
        ("dir", "    dir: ./api\n"),
        ("schedule", "    schedule: {every: 300}\n"),
    ] {
        for older in FIRST_SCHEMA_VERSION..FIRST_TWO_PARTY_JOB_VERSION {
            let err = refusal(&document(older, own));
            assert!(
                err.contains(&format!("onejudge `{field}`")),
                "version {older}: {err}"
            );
            assert!(
                err.contains(&format!(
                    "requires graph schema version {FIRST_TWO_PARTY_JOB_VERSION}"
                )),
                "version {older}: {err}"
            );
        }
    }

    // Present and empty is a typo, not a request for the run's directory.
    let err = refusal(&document(SCHEMA_VERSION, "    dir: ''\n"));
    assert!(err.contains("names no directory"), "{err}");
    assert!(err.contains("monitor"), "{err}");

    // And a member naming neither validates under every schema this build reads.
    for version in FIRST_SCHEMA_VERSION..=SCHEMA_VERSION {
        let unchanged = parse(&document(version, ""));
        assert!(validate(&unchanged).is_ok(), "version {version}");
        assert_eq!(named(&unchanged, "monitor").schedule(), None);
        assert_eq!(named(&unchanged, "monitor").dir(), &None);
    }
}

/// A two-party member's schedule is held to exactly the rules a single-sided one
/// is.
#[test]
fn a_two_party_schedule_is_held_to_the_rules_a_single_sided_one_is() {
    let document = |schedule: &str| {
        two_party(
            SCHEMA_VERSION,
            "monitor",
            &format!("{HARNESS_JUDGE}    schedule: {schedule}\n"),
        )
    };
    let scheduled = |schedule: &str| -> Schedule {
        let graph = parse(&document(schedule));
        validate(&graph).unwrap_or_else(|err| panic!("{schedule}: {}", err.message()));
        named(&graph, "monitor")
            .schedule()
            .expect("the member is scheduled")
    };
    // `every: 0` never stops firing.
    let err = refusal(&document("{every: 0}"));
    assert!(err.contains("never stops firing"), "{err}");
    assert!(err.contains("monitor"), "{err}");
    // A span longer than any run is refused naming the field, on both.
    for (schedule, field) in [
        (format!("{{every: {}}}", MAX_SCHEDULE_SECONDS + 1), "every"),
        (
            format!("{{every: 60, start_after: {}}}", MAX_SCHEDULE_SECONDS + 1),
            "start_after",
        ),
    ] {
        let err = refusal(&document(&schedule));
        assert!(err.contains(field), "{schedule}: {err}");
        assert!(err.contains("longer than any run"), "{schedule}: {err}");
    }
    // A schedule naming no `start_after` waits one `every` before its first turn
    // under the current schema, and `resettable` defaults off.
    let inherited = scheduled("{every: 300}");
    assert_eq!(inherited.start_after, None);
    assert_eq!(inherited.first_turn_after(SCHEMA_VERSION), 300);
    assert!(!inherited.resettable);
    assert_eq!(
        scheduled("{every: 300, start_after: 0}").first_turn_after(SCHEMA_VERSION),
        0
    );
    assert!(scheduled("{every: 300, resettable: true}").resettable);
}

/// `background` is a member's own say over whether it holds the run open, on both
/// kinds, from the schema that has it — and what an omission means is the schema's.
#[test]
fn background_is_declared_from_the_schema_that_has_it_and_inferred_before() {
    // A schedule, its descendant, and a member outside both — the three shapes the
    // two readings answer differently.
    let document = |version: u32, ticker: &str, worker: &str| {
        format!(
            "{}{ticker}{}{HARNESS_JUDGE}    deps: [ticker]\n{worker}",
            lines(&[
                &format!("version: {version}"),
                "name: g",
                "members:",
                "  ticker:",
                "    kind: oneharness",
                "    oneharness_config: ./a.toml",
                "    schedule: {every: 1800}",
            ]),
            lines(&[
                "  report:",
                "    kind: oneharness",
                "    oneharness_config: ./a.toml",
                "    deps: [ticker]",
                "  worker:",
                "    kind: onejudge",
                "    base_config: ./b.yaml",
                "    mode: bypass",
                "    agent: {oneharness_config: ./a.toml}",
            ])
        )
    };
    let read = |version: u32, ticker: &str, worker: &str| -> GraphConfig {
        let document = document(version, ticker, worker);
        let graph = parse(&document);
        validate(&graph).unwrap_or_else(|err| panic!("{document}: {}", err.message()));
        graph
    };

    // Stating nothing: from the schema that has the field the schedule decides, so
    // the two members descending from it are foreground.
    let current = read(FIRST_BACKGROUND_VERSION, "", "");
    assert!(current.is_background("ticker"));
    assert!(!current.is_background("report"));
    assert!(!current.is_background("worker"));
    assert!(current
        .members
        .iter()
        .all(|member| member.1.declared_background().is_none()));

    // Under every older schema the same document is the inference those documents
    // have always run under: descending from nothing but a schedule is background
    // too — through a diamond as much as a chain.
    for older in 2..FIRST_BACKGROUND_VERSION {
        let graph = read(older, "", "");
        assert!(graph.is_background("ticker"), "version {older}");
        assert!(graph.is_background("report"), "version {older}");
        assert!(graph.is_background("worker"), "version {older}");
        let diamond = parse(&format!(
            "{}  summary:\n    kind: oneharness\n    oneharness_config: ./a.toml\n    \
             deps: [ticker, report]\n",
            document(older, "", "")
        ));
        validate(&diamond).expect("a diamond of deps is a legal graph");
        assert!(diamond.is_background("summary"), "version {older}");
    }

    // Declared: the value wins over the default in both directions, on either kind.
    let declared = read(
        FIRST_BACKGROUND_VERSION,
        "    background: false\n",
        "    background: true\n",
    );
    assert!(!declared.is_background("ticker"));
    assert!(!declared.is_background("report"));
    assert!(declared.is_background("worker"));
    assert_eq!(
        named(&declared, "ticker").declared_background(),
        Some(false)
    );
    assert_eq!(named(&declared, "worker").declared_background(), Some(true));

    // And under every older schema, naming it on either kind is refused by the
    // field's name rather than run under the inference.
    for older in 2..FIRST_BACKGROUND_VERSION {
        for (member, named) in [
            ("ticker", document(older, "    background: false\n", "")),
            ("worker", document(older, "", "    background: true\n")),
        ] {
            let err = refusal(&named);
            assert!(err.contains("`background`"), "{older}: {err}");
            assert!(err.contains(member), "{older}: {err}");
            assert!(
                err.contains(&format!(
                    "requires graph schema version {FIRST_BACKGROUND_VERSION}"
                )),
                "{older}: {err}"
            );
        }
    }

    // A name the graph has no member called holds nothing and is nothing.
    assert!(!current.is_background("ghost"));
}

/// A member waiting on itself, or on one that waits on it, descends from no
/// schedule, and asking says so.
#[test]
fn a_cycle_is_nobodys_background() {
    let mut graph = parse(&lines(&[
        "version: 3",
        "name: g",
        "members:",
        "  a:",
        "    kind: oneharness",
        "    oneharness_config: ./a.toml",
        "    deps: [b]",
        "  b:",
        "    kind: oneharness",
        "    oneharness_config: ./a.toml",
        "    deps: [a]",
    ]));
    assert!(!graph.is_background("a"));
    assert!(!graph.is_background("b"));
    if let Member::Oneharness(b) = &mut graph.members[1].1 {
        b.schedule = Some(Schedule {
            every: 5,
            start_after: None,
            resettable: false,
        });
    }
    assert!(graph.is_background("a"));
    assert!(graph.is_background("b"));
}

/// What a task's text means is the schema's too.
#[test]
fn a_task_takes_the_runs_only_from_the_schema_that_has_the_token() {
    assert_eq!(TaskText::under(3), TaskText::Literal);
    assert_eq!(TaskText::under(4), TaskText::Template);
}

#[test]
fn a_failure_says_what_it_is_and_exits_with_its_own_code() {
    let config = Error::InvalidConfig("no".to_string());
    assert_eq!((config.message().as_str(), config.exit_code()), ("invalid config: no", 2));
    let member = Error::MemberFailed {
        member: "w".to_string(),
        reason: "it died".to_string(),
    };
    assert_eq!(
        (member.message().as_str(), member.exit_code()),
        ("member 'w' failed: it died", 1)
    );
}
