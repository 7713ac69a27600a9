use std::io::Write;

use oneagentgraph::event::{
    Artifact, Cause, EventKind, MemberSettled, OneharnessSession, Party, Payload, Role, Usage,
    MAX_PAYLOAD_TEXT_BYTES, ONEHARNESS_SESSION_ARTIFACT,
};
use oneagentgraph::judge::{
    agent_session, carried_report, condemned_refusal, config_skill, conversation_dir, evidence,
    finish, fixture_hold, ingest, provider_cause, publish_attribution, record_control, skill_dir,
    spawn_args, stop_files, terminal_refusal, Answer, Attribution, Candidate, Ended, Failure,
    FellThrough, Observation, Telemetry, Undelivered,
};
use oneagentgraph::control::{Address, Turn};
use oneagentgraph::invoke::{JudgeLaunch, AGENT_CONFIG_FILE, ONEJUDGE_CONFIG_FILE};
use oneagentgraph::json_read::{node_at, Node};
use oneagentgraph::member::{
    engine_gone, settle_report, unstartable, Heard, Kind, Next, Rule, Stopping, Teardown, Verdict,
    Watch,
};
use oneagentgraph::payload::{Emission, MemberDied, TurnActivity};
use onejudge::cli::{Config, Overrides, Plan};

// ---- What onejudge reports, in the library's own types ----
fn usage(usage: &onejudge::Usage) -> Usage {
    Usage {
        input_tokens: usage.input_tokens,
        output_tokens: usage.output_tokens,
        cache_read_tokens: usage.cache_read_tokens,
        cache_write_tokens: usage.cache_write_tokens,
        cost_usd_bits: usage.cost_usd.map(f64::to_bits),
    }
}

fn candidate(it: &onejudge::CandidateAttempt) -> Candidate {
    Candidate {
        harness_id: it.harness_id.clone(),
        status: it.status.clone(),
        exit_code: it.exit_code,
        ran: it.ran,
        failure_kind: it.failure_kind.clone(),
        usage: it.usage.as_ref().map(usage),
        usage_text: it
            .usage
            .as_ref()
            .and_then(|usage| serde_json::to_string(usage).ok()),
        session_id: it.session_id.clone(),
        history_id: it.history_id.clone(),
    }
}

fn telemetry(json: &str) -> Option<Telemetry> {
    let read: onejudge::Telemetry = serde_json::from_str(json).expect("telemetry");
    Some(Telemetry {
        attribution: read
            .attribution
            .iter()
            .map(|it| Attribution {
                role: match it.role {
                    onejudge::TelemetryRole::Agent => Role::Agent,
                    onejudge::TelemetryRole::Judge => Role::Judge,
                },
                turn: u64::from(it.turn_index),
                fell_through: it
                    .fell_through
                    .iter()
                    .map(|past| FellThrough {
                        harness: past.harness.clone(),
                        reason: past.reason.clone(),
                    })
                    .collect(),
                candidates: it.candidates.iter().map(candidate).collect(),
                history_file: it.history_file.clone(),
                history_bytes: 0,
            })
            .collect(),
    })
}

/// One attribution as telemetry, for the arms that turn on a single field.
fn one_attribution(attribution: &str) -> Option<Telemetry> {
    telemetry(&format!(
        "{{\"wall_ms\": 1, \"orchestration_ms\": 0, \"agent\": {{}}, \"judge\": {{}}, \
         \"sessions\": [], \"attribution\": [{attribution}]}}"
    ))
}

fn failure(error: &onejudge::cli::CliError) -> Failure {
    match error {
        onejudge::cli::CliError::Engine(error) => {
            Failure::Engine(error.kind().map(|kind| Cause::classify(kind.as_str())))
        }
        _ => Failure::Other,
    }
}

fn kinds(emissions: &[Emission]) -> Vec<EventKind> {
    emissions.iter().map(|emission| emission.kind).collect()
}

fn death(emission: &Emission) -> &MemberDied {
    match &emission.payload {
        Payload::MemberDied(died) => died,
        other => panic!("not a death: {other:?}"),
    }
}

fn activity(emission: &Emission) -> &TurnActivity {
    match &emission.payload {
        Payload::TurnActivity(activity) => activity,
        other => panic!("not an activity: {other:?}"),
    }
}

// ---- A conversation ----
const EFFECTIVE: &str = "provider:\n  kind: oneharness\n  bin: oneharness\n  stream: true\n\
    system_prompt: preamble\n\
    user:\n  persona: lead\n  done_when: done\n  max_turns: 4\n";

fn launch(dir: &std::path::Path) -> JudgeLaunch {
    JudgeLaunch {
        config: dir.join(ONEJUDGE_CONFIG_FILE).display().to_string(),
        task: "do the thing".to_string(),
        worktree: dir.display().to_string(),
        agent_config: dir.join(AGENT_CONFIG_FILE).display().to_string(),
        session: "run-1-worker".to_string(),
    }
}

/// onejudge's own plan of the config `text`, as a host resolves it.
fn plan(launch: &JudgeLaunch, text: &str) -> Result<Plan, String> {
    let skill = config_skill("/here", &launch.config, text)?;
    let mut config = Config::from_yaml(text).map_err(|err| err.to_string())?;
    config.skill = skill.map(Into::into);
    config.apply(Overrides::from_env(|_| None).map_err(|err| err.to_string())?);
    config.apply(Overrides {
        task: Some(launch.task.clone()),
        ..Overrides::default()
    });
    let mut plan = config.into_plan().map_err(|err| err.to_string())?;
    plan.conversation.skill.dir = conversation_dir(plan.conversation.skill.dir, &launch.worktree);
    Ok(plan)
}

/// The conversation is anchored to the member's own worktree by *name*.
#[test]
fn a_member_s_conversation_is_anchored_to_its_own_worktree() {
    let dir = tempfile::tempdir().expect("tempdir");
    let launch = launch(dir.path());
    assert_eq!(config_skill("/here", &launch.config, EFFECTIVE), Ok(None));
    let plan = plan(&launch, EFFECTIVE).expect("a plan");
    assert_eq!(
        plan.conversation.skill.dir,
        dir.path().display().to_string(),
        "a member that did not name its worktree would inherit the process's own"
    );
    // The run's task reaches the conversation, and the config's own settings survive
    // resolution.
    assert_eq!(plan.conversation.input, "do the thing");
    assert_eq!(plan.done_when.as_deref(), Some("done"));
}

/// A config that names its own skill directory keeps it, read against the
/// directory the config is in.
#[test]
fn a_config_that_names_a_skill_directory_keeps_it() {
    let dir = tempfile::tempdir().expect("tempdir");
    let skills = tempfile::Builder::new()
        .prefix("skills")
        .rand_bytes(0)
        .tempdir_in(dir.path())
        .expect("a directory");
    let skill = tempfile::Builder::new()
        .prefix("greeter")
        .rand_bytes(0)
        .tempdir_in(skills.path())
        .expect("a skill directory");
    let mut body = tempfile::Builder::new()
        .prefix("SKILL.md")
        .rand_bytes(0)
        .tempfile_in(skill.path())
        .expect("a skill");
    body.write_all(b"Greet warmly.\n").expect("a body");
    body.flush().expect("a body");

    let launch = launch(dir.path());
    let plan = plan(&launch, &format!("{EFFECTIVE}skill: skills/greeter\n")).expect("a plan");
    assert_eq!(
        std::path::Path::new(&plan.conversation.skill.dir)
            .canonicalize()
            .expect("the plan named a directory that is not there"),
        skill.path().canonicalize().expect("the skill directory"),
    );
    // The config's own preamble first, then the skill's body.
    assert_eq!(
        plan.conversation.skill.instructions,
        "preamble\n\nGreet warmly."
    );
    assert_eq!(
        config_skill(
            "/here",
            "/scratch/onejudge.yaml",
            &format!("{EFFECTIVE}skill: ./skills/greeter\n")
        ),
        Ok(Some("/scratch/skills/greeter".to_string()))
    );
    assert_eq!(
        skill_dir("/here", "scratch/onejudge.yaml", "skills/greeter"),
        "/here/scratch/skills/greeter"
    );
}

/// A `skill:` that names its own root is loaded from there, whatever directory the
/// config naming it sits in.
#[test]
fn a_skill_that_names_its_own_root_is_not_re_rooted_under_the_config() {
    let dir = tempfile::tempdir().expect("tempdir");
    let text = format!("{EFFECTIVE}skill: /graphs/api\n");
    let launch = launch(dir.path());
    assert_eq!(
        config_skill("/here", &launch.config, &text),
        Ok(Some("/graphs/api".to_string()))
    );
    let err = plan(&launch, &text).map(|_| ()).unwrap_err();
    assert!(err.contains("skill `/graphs/api`"), "{err}");
}

/// A config this build cannot resolve is a member that never started, named as that
/// rather than launched into a run nothing can drive.
#[test]
fn a_config_that_cannot_resolve_refuses_before_anything_runs() {
    let dir = tempfile::tempdir().expect("tempdir");
    let mut launch = launch(dir.path());
    let malformed = config_skill("/here", &launch.config, "provider: [not, a, mapping]\n");
    let reason = malformed.unwrap_err();
    assert!(reason.contains("could not parse config"), "{reason}");
    // A key onejudge does not know is refused by the same parser.
    assert!(config_skill("/here", &launch.config, "skil: ./s\n").is_err());
    assert!(plan(&launch, "provider: [not, a, mapping]\n").is_err());

    launch.task = String::new();
    let taskless = plan(&launch, EFFECTIVE).map(|_| ()).unwrap_err();
    assert!(taskless.contains("no task"), "{taskless}");

    // And the refusal reaches the stream as a death, not as a settle.
    let emission = unstartable(&reason);
    assert_eq!(emission.kind, EventKind::MemberDied);
    assert_eq!(death(&emission).detail, reason.trim());
}

fn call() -> Observation {
    Observation::Tool {
        kind: "tool_call".into(),
        name: Some("bash".into()),
        detail: "just check".into(),
        output: None,
        tool_call_id: Some("t1".into()),
        index: 0,
    }
}

/// The whole of a turn reaches the stream: its opening and what it was asked, each
/// tool call, the party's own reply, and the turn's own cost and bounds.
#[test]
fn a_whole_turn_reaches_the_stream_as_it_happens() {
    let spent = usage(&onejudge::Usage {
        input_tokens: Some(900),
        output_tokens: Some(120),
        cache_read_tokens: None,
        cache_write_tokens: None,
        cost_usd: Some(0.42),
    });
    let events: Vec<Emission> = [
        Observation::TurnOpened {
            turn: 1,
            role: Party::Assistant,
            instruction: "write the thing".into(),
            started_at: "2026-08-21T09:15:02.847Z".into(),
        },
        call(),
        Observation::Message {
            turn: 1,
            role: Party::Assistant,
            text: "done".into(),
        },
        Observation::TurnClosed {
            turn: 1,
            role: Party::Assistant,
            usage: Some(spent),
            started_at: "2026-08-21T09:15:02.847Z".into(),
            finished_at: "2026-08-21T09:16:11.002Z".into(),
        },
    ]
    .iter()
    .map(ingest)
    .collect();
    assert_eq!(
        kinds(&events),
        vec![
            EventKind::TurnStarted,
            EventKind::TurnActivity,
            EventKind::TurnMessage,
            EventKind::TurnCompleted,
        ]
    );
    match &events[0].payload {
        Payload::TurnStarted(opened) => {
            assert_eq!(opened.turn, 1);
            assert_eq!(opened.role, "assistant");
            assert_eq!(opened.instruction, "write the thing");
            assert_eq!(opened.started_at, "2026-08-21T09:15:02.847Z");
        }
        other => panic!("{other:?}"),
    }
    let tool = activity(&events[1]);
    assert_eq!(tool.name.as_deref(), Some("bash"));
    assert_eq!(tool.kind, "tool_call");
    assert_eq!(tool.detail, "just check");
    assert_eq!(tool.tool_call_id.as_deref(), Some("t1"));
    match &events[2].payload {
        Payload::TurnMessage(message) => {
            assert_eq!(message.text, "done");
            assert_eq!(message.role, "assistant");
        }
        other => panic!("{other:?}"),
    }
    // This one turn's cost, on this one turn.
    match &events[3].payload {
        Payload::TurnCompleted(closed) => {
            assert_eq!(closed.usage.input_tokens, Some(900));
            assert_eq!(closed.usage.output_tokens, Some(120));
            assert_eq!(closed.usage.cost_usd_bits.map(f64::from_bits), Some(0.42));
            assert_eq!(closed.usage.cache_read_tokens, None);
            assert_eq!(closed.finished_at, "2026-08-21T09:16:11.002Z");
        }
        other => panic!("{other:?}"),
    }
}

/// Every party keeps onejudge's own spelling for it.
#[test]
fn every_party_keeps_the_spelling_the_engine_gives_it() {
    for (role, party) in [
        (onejudge::Role::Assistant, Party::Assistant),
        (onejudge::Role::User, Party::User),
        (onejudge::Role::System, Party::System),
    ] {
        assert_eq!(
            serde_json::to_value(role).expect("serializes").as_str(),
            Some(party.as_str()),
            "onejudge renamed {role:?}"
        );
    }
}

/// A supervisor turn that reported no usage closes with no figures, not with
/// zeroes.
#[test]
fn a_turn_whose_provider_reported_nothing_publishes_no_figures_at_all() {
    let emission = ingest(&Observation::TurnClosed {
        turn: 2,
        role: Party::User,
        usage: None,
        started_at: "2026-08-21T09:16:11.002Z".into(),
        finished_at: "2026-08-21T09:16:12.500Z".into(),
    });
    match &emission.payload {
        Payload::TurnCompleted(closed) => {
            assert_eq!(closed.role, "user");
            assert_eq!(closed.usage, Usage::default());
        }
        other => panic!("{other:?}"),
    }
}

/// A `tool_result` names no tool because it answers one already named, and it is
/// published all the same — carrying the observation and the identity of the call
/// it answers.
#[test]
fn judge_an_observation_reaches_the_stream_with_the_identity_of_the_call_it_answers() {
    let emission = ingest(&Observation::Tool {
        kind: "tool_result".into(),
        name: None,
        detail: String::new(),
        output: Some("2 passed; 0 failed".into()),
        tool_call_id: Some("t1".into()),
        index: 1,
    });
    let tool = activity(&emission);
    assert_eq!(tool.kind, "tool_result");
    assert_eq!(tool.name, None);
    assert_eq!(tool.output.as_deref(), Some("2 passed; 0 failed"));
    assert_eq!(tool.tool_call_id.as_deref(), Some("t1"));
    assert_eq!(tool.index, 1);
    assert_eq!(tool.detail, "");
}

/// The three long fields are bounded from the end each is read from, each saying
/// whether it was cut: the instruction a turn answers and the party's own reply
/// keep their opening, an observation keeps its tail.
#[test]
fn each_live_text_is_bounded_from_the_end_it_is_read_from() {
    // `é` is two bytes and both openings are odd, so the even bound falls between
    // two character boundaries.
    let long = format!("the plan is{}", "é".repeat(MAX_PAYLOAD_TEXT_BYTES));
    let asked = format!("write the thing{}", "é".repeat(MAX_PAYLOAD_TEXT_BYTES));
    let output = format!(
        "{}the test suite failed",
        "é".repeat(MAX_PAYLOAD_TEXT_BYTES)
    );
    let opened = ingest(&Observation::TurnOpened {
        turn: 1,
        role: Party::Assistant,
        instruction: asked,
        started_at: "2026-08-21T09:15:02.847Z".into(),
    });
    match &opened.payload {
        Payload::TurnStarted(opened) => {
            assert!(opened.instruction.starts_with("write the thing"));
            assert!(
                opened.instruction.len() < MAX_PAYLOAD_TEXT_BYTES,
                "the cut did not walk back to a boundary: {}",
                opened.instruction.len()
            );
            assert!(opened.instruction_truncated);
        }
        other => panic!("{other:?}"),
    }
    let said = ingest(&Observation::Message {
        turn: 1,
        role: Party::Assistant,
        text: long,
    });
    match &said.payload {
        Payload::TurnMessage(message) => {
            assert!(message.text.starts_with("the plan is"));
            assert!(
                message.text.len() < MAX_PAYLOAD_TEXT_BYTES,
                "the cut did not walk back to a boundary: {}",
                message.text.len()
            );
            assert!(message.truncated);
        }
        other => panic!("{other:?}"),
    }
    let tool = ingest(&Observation::Tool {
        kind: "tool_result".into(),
        name: None,
        detail: String::new(),
        output: Some(output),
        tool_call_id: None,
        index: 1,
    });
    let tool = activity(&tool);
    let output = tool.output.as_deref().expect("an observation");
    assert!(output.ends_with("the test suite failed"), "{output}");
    assert!(output.len() <= MAX_PAYLOAD_TEXT_BYTES);
    assert!(tool.output_truncated);
}

/// A text that stops exactly on the bound is served whole and says it was not cut.
#[test]
fn a_text_that_ends_on_the_bound_is_not_reported_as_cut() {
    let exact = "é".repeat(MAX_PAYLOAD_TEXT_BYTES / 2);
    assert_eq!(exact.len(), MAX_PAYLOAD_TEXT_BYTES);
    let emission = ingest(&Observation::Message {
        turn: 1,
        role: Party::Assistant,
        text: exact.clone(),
    });
    match &emission.payload {
        Payload::TurnMessage(message) => {
            assert_eq!(message.text, exact);
            assert!(!message.truncated, "an uncut reply claimed a cut");
        }
        other => panic!("{other:?}"),
    }
}

/// Every candidate each side stepped past is published, carrying the side and the
/// turn onejudge attributed it to.
#[test]
fn every_candidate_a_side_stepped_past_is_published_with_its_side_and_turn() {
    let telemetry = telemetry(
        r#"{"wall_ms": 10, "orchestration_ms": 1, "agent": {}, "judge": {}, "sessions": [],
            "attribution": [
                {"role": "agent", "turn_index": 1, "ran": "codex",
                 "fell_through": [{"harness": "cursor-agent", "reason": "quota"}],
                 "candidates": []},
                {"role": "judge", "turn_index": 2, "ran": "cursor-agent",
                 "fell_through": [], "candidates": []}]}"#,
    );
    let events = publish_attribution(&telemetry);
    assert_eq!(kinds(&events), vec![EventKind::FallbackAdvanced]);
    match &events[0].payload {
        Payload::FallbackAdvanced(advanced) => {
            assert_eq!(advanced.identity, "cursor-agent");
            assert_eq!(advanced.reason, "quota");
            assert_eq!(advanced.role, Some(Role::Agent));
            assert_eq!(advanced.turn, Some(1));
        }
        other => panic!("{other:?}"),
    }

    // A run with no telemetry publishes nothing rather than an invented chain.
    assert!(publish_attribution(&None).is_empty());
}

/// One attribution's session file, decomposed into the three values a consumer
/// resolves it with, beside the artifact that names the record.
#[test]
fn an_invocation_that_wrote_a_record_publishes_where_to_read_it() {
    let telemetry = telemetry(
        r#"{"wall_ms": 10, "orchestration_ms": 1, "agent": {}, "judge": {}, "sessions": [],
            "attribution": [
                {"role": "judge", "turn_index": 2, "ran": "cursor-agent:alternate",
                 "fell_through": [],
                 "candidates": [
                     {"harness": "codex", "harness_id": "codex", "status": "skipped",
                      "available": false, "ran": false, "history_id": "the-attempt"},
                     {"harness": "cursor-agent", "harness_id": "cursor-agent:alternate",
                      "status": "ok", "available": true, "ran": true,
                      "session_id": "54e7ad34", "history_id": "01a00d0f"}],
                 "history_file": "/state/oneharness/history/a-project/worker-skill-1.jsonl"}]}"#,
    );
    let events = publish_attribution(&telemetry);
    assert_eq!(kinds(&events), vec![EventKind::OneharnessSession]);
    assert_eq!(
        events[0].payload,
        Payload::OneharnessSession(OneharnessSession {
            role: Role::Judge,
            turn: 2,
            identity: "cursor-agent:alternate".to_string(),
            session_id: Some("54e7ad34".to_string()),
            history_id: "01a00d0f".to_string(),
            history_dir: "/state/oneharness/history".to_string(),
            history_project: "a-project".to_string(),
            history_session: "worker-skill-1".to_string(),
        }),
        "the pointer is built from the candidate that ran, not from an attempt"
    );
    assert_eq!(
        events[0].artifacts,
        vec![Artifact {
            id: "01a00d0f".to_string(),
            kind: ONEHARNESS_SESSION_ARTIFACT.to_string(),
            bytes: 0,
        }]
    );
    // The label a consumer renders a transcript from is not on this event.
    assert!(!events[0].kind.carries_session());
}

/// The candidate that ran and wrote a record.
const A_CANDIDATE_THAT_RAN: &str = r#"{"harness": "cursor-agent", "harness_id": "cursor-agent",
    "status": "ok", "available": true, "ran": true, "history_id": "01a00d0f"}"#;

/// An invocation with no record to point at publishes nothing: history was off for
/// that side, no candidate ran at all, or the candidate that ran wrote no record.
#[test]
fn an_invocation_with_no_record_publishes_no_pointer() {
    for telemetry in [
        one_attribution(&format!(
            r#"{{"role": "agent", "turn_index": 1, "ran": "cursor-agent", "fell_through": [],
                 "candidates": [{A_CANDIDATE_THAT_RAN}]}}"#
        )),
        one_attribution(
            r#"{"role": "agent", "turn_index": 1, "fell_through": [],
                "candidates": [{"harness": "codex", "harness_id": "codex", "status": "skipped",
                                "available": false, "ran": false, "history_id": "the-attempt"}],
                "history_file": "/state/h/p/s.jsonl"}"#,
        ),
        one_attribution(
            r#"{"role": "agent", "turn_index": 1, "ran": "codex", "fell_through": [],
                "candidates": [{"harness": "codex", "harness_id": "codex", "status": "ok",
                                "available": true, "ran": true}],
                "history_file": "/state/h/p/s.jsonl"}"#,
        ),
    ] {
        let events = publish_attribution(&telemetry);
        assert!(
            events.is_empty(),
            "a pointer at nothing was published: {events:?}"
        );
    }
}

fn pointers(history_file: &str) -> Vec<Emission> {
    publish_attribution(&one_attribution(&format!(
        r#"{{"role": "agent", "turn_index": 1, "ran": "cursor-agent", "fell_through": [],
             "candidates": [{A_CANDIDATE_THAT_RAN}], "history_file": "{history_file}"}}"#
    )))
}

/// A `history_file` that is not a path inside oneharness's own store publishes
/// nothing — refused rather than tidied into three fields.
#[test]
fn a_history_file_that_could_escape_the_store_publishes_nothing() {
    for history_file in [
        // Climbing out of the store, from the middle and from the front.
        "/state/h/p/../../../../etc/shadow.jsonl",
        "/state/h/../../p/s.jsonl",
        "../../../../etc/p/s.jsonl",
        // Relative, so anchored to whatever directory the consumer happens to have.
        "./p/s.jsonl",
        "p/s.jsonl",
        // Absolute, but with nothing named above the project.
        "/p/s.jsonl",
        "/s.jsonl",
        // Not a session file at all.
        "/state/h/p/s.txt",
        "/state/h/p/s",
    ] {
        let events = pointers(history_file);
        assert!(
            events.is_empty(),
            "{history_file:?} was published for a consumer to resolve: {events:?}"
        );
    }
}

/// A `history_file` that names no session publishes nothing rather than a pointer
/// whose session name is empty.
#[test]
fn a_history_file_naming_no_session_publishes_nothing() {
    for history_file in ["/state/h/p/.jsonl", "/state/oneharness/history/p/.jsonl"] {
        let events = pointers(history_file);
        assert!(
            events.is_empty(),
            "{history_file:?} was published with an empty session name: {events:?}"
        );
    }
}

/// A failure onejudge classified reaches the wire as that class; one it could not
/// classify says so rather than borrowing a class it does not have.
#[test]
fn a_failure_is_classified_by_onejudge_or_named_unclassified() {
    let classified = onejudge::cli::CliError::Engine(onejudge::Error::provider_classified(
        "respond",
        "the subscription is exhausted",
        onejudge::ProviderErrorKind::Quota,
    ));
    assert_eq!(provider_cause(failure(&classified)), Cause::Quota);

    let bare = onejudge::cli::CliError::Engine(onejudge::Error::provider("respond", "boom"));
    assert_eq!(provider_cause(failure(&bare)), Cause::Unclassified);

    // A config failure names no provider kind, because no provider ran.
    let config = onejudge::cli::CliError::Config("no task".into());
    assert_eq!(provider_cause(failure(&config)), Cause::Unclassified);
}

/// One failed run, classified `kind`, carrying a harness record as the telemetry of
/// its single invocation.
fn failed_run(kind: onejudge::ProviderErrorKind, candidate: &str) -> Answer {
    let error = onejudge::cli::CliError::Engine(onejudge::Error::provider_classified(
        "respond",
        "the provider said the call was rate limited",
        kind,
    ));
    Answer::Failed {
        telemetry: one_attribution(&format!(
            r#"{{"role": "agent", "turn_index": 1, "ran": "cursor-agent", "fell_through": [],
                 "candidates": [{candidate}]}}"#
        )),
        failure: failure(&error),
        error: error.to_string(),
    }
}

/// A `rate_limit` classification is **not** published as a death when the harness's
/// own record for that turn says it completed and was billed.
#[test]
fn a_classification_the_harness_record_contradicts_is_not_published_as_a_death() {
    let finished = finish(
        failed_run(
            onejudge::ProviderErrorKind::RateLimit,
            r#"{"harness": "cursor-agent", "harness_id": "cursor-agent", "status": "ok",
                "available": true, "ran": true, "exit_code": 0, "duration_ms": 812004,
                "usage": {"input_tokens": 41233, "output_tokens": 9812, "cost_usd": 12.11}}"#,
        ),
        false,
    );
    assert!(
        !kinds(&finished.ending.emissions).contains(&EventKind::MemberDied),
        "a member died over a classification its own record contradicts"
    );
    assert!(
        matches!(
            finished.ending.verdict,
            Verdict::Settled {
                completed: false,
                carried: Some(_)
            }
        ),
        "a turn the record says completed killed its member"
    );
    let last = finished.ending.emissions.last().expect("a settle");
    assert_eq!(last.kind, EventKind::MemberSettled);
    assert_eq!(
        last.payload,
        Payload::MemberSettled(MemberSettled { completed: false })
    );
    // The turn the record describes is carried, and what it was carried over is on the
    // artifact rather than left for nobody to find.
    let spent = "{\"wall_ms\":7,\"orchestration_ms\":0,\"agent\":{},\"judge\":{},\"sessions\":[]}";
    let document = carried_report(&finished.ending, Some(spent)).expect("a report");
    assert_eq!(node_at(&document, "/telemetry/wall_ms"), Ok(Node::Count(7)));
    let settling = settle_report(finished.ending, "/scratch/w", &document);
    let stored = settling.file.expect("the settle stored its report");
    assert_eq!(stored.path, "/scratch/w/report.json");
    assert_eq!(
        settling.ending.emissions.last().map(|it| it.artifacts.len()),
        Some(1)
    );
    let report: onejudge::Report = serde_json::from_str(&stored.content).expect("a report");
    assert_eq!(report.telemetry.map(|it| it.wall_ms), Some(7));
    let settled = report.settled_reason.expect("a settle reason");
    assert_eq!(
        node_at(&stored.content, "/settled_reason"),
        Ok(Node::Text(settled.clone()))
    );
    assert!(settled.contains("rate_limit"), "{settled}");
    assert!(settled.contains("status ok"), "{settled}");
    assert!(settled.contains("exit code 0"), "{settled}");
    assert!(settled.contains("12.11"), "{settled}");
}

/// A classification the record disagrees with some *other* way still kills the
/// member, but what is published names both.
#[test]
fn a_disagreement_that_is_not_a_completed_turn_names_the_record_beside_the_cause() {
    let finished = finish(
        failed_run(
            onejudge::ProviderErrorKind::RateLimit,
            r#"{"harness": "cursor-agent", "harness_id": "cursor-agent", "status": "nonzero",
                "available": true, "ran": true, "exit_code": 2, "failure_kind": "auth"}"#,
        ),
        false,
    );
    assert_eq!(
        finished.ending.verdict,
        Verdict::Died(Rule::ProviderFailure)
    );
    assert_eq!(
        kinds(&finished.ending.emissions),
        vec![EventKind::MemberDied]
    );
    let died = death(&finished.ending.emissions[0]);
    // The cause is the classification, unchanged.
    assert_eq!(died.cause, Cause::RateLimit);
    assert!(died.detail.contains("rate_limit"), "{died:?}");
    assert!(died.detail.contains("status nonzero"), "{died:?}");
    assert!(died.detail.contains("exit code 2"), "{died:?}");
    assert!(died.detail.contains("usage none"), "{died:?}");
}

/// A genuine provider death still publishes its cause and its own words untouched.
#[test]
fn a_provider_death_its_record_backs_is_published_unchanged() {
    let finished = finish(
        failed_run(
            onejudge::ProviderErrorKind::RateLimit,
            r#"{"harness": "cursor-agent", "harness_id": "cursor-agent", "status": "nonzero",
                "available": true, "ran": true, "exit_code": 1,
                "failure_kind": "rate_limit", "failure_kind_source": "stderr",
                "usage": {"input_tokens": 900, "cost_usd": 0.42}}"#,
        ),
        false,
    );
    assert_eq!(
        finished.ending.verdict,
        Verdict::Died(Rule::ProviderFailure)
    );
    let died = death(&finished.ending.emissions[0]);
    assert_eq!(died.cause, Cause::RateLimit);
    assert_eq!(
        died.detail,
        "run failed: provider error (respond): the provider said the call was rate limited",
        "a death its record backs was rewritten"
    );
}

/// A failure with no harness record at all is published as it was classified.
#[test]
fn a_failure_carrying_no_harness_record_is_published_as_classified() {
    let error = onejudge::cli::CliError::Config("no task".into());
    let finished = finish(
        Answer::Failed {
            telemetry: None,
            failure: failure(&error),
            error: error.to_string(),
        },
        false,
    );
    let died = death(&finished.ending.emissions[0]);
    assert_eq!(died.cause, Cause::Unclassified);
    assert_eq!(died.detail, "config error: no task");
}

/// A failure of a member that was cancelled is a cancellation, whatever its record
/// says.
#[test]
fn a_cancelled_members_failure_is_a_cancellation() {
    let finished = finish(
        failed_run(
            onejudge::ProviderErrorKind::RateLimit,
            r#"{"harness": "codex", "harness_id": "codex", "status": "ok", "available": true,
                "ran": true, "exit_code": 0, "usage": {"output_tokens": 1}}"#,
        ),
        true,
    );
    assert_eq!(death(&finished.ending.emissions[0]).cause, Cause::Cancelled);
    assert_eq!(finished.control, None);
}

/// A member whose engine thread **panics** fails that member: the watch reads an
/// engine that ended without answering.
#[test]
fn judge_a_panicking_engine_kills_its_own_member_and_not_the_process() {
    let mut watch = Watch::new(0, 60_000, 1_000);
    assert_eq!(watch.step(Heard::Gone, 5, false), Next::Gone);
    let ending = engine_gone(Kind::Onejudge);
    assert_eq!(ending.verdict, Verdict::Died(Rule::ProviderFailure));
    assert_eq!(kinds(&ending.emissions), vec![EventKind::MemberDied]);
    let died = death(&ending.emissions[0]);
    assert_eq!(died.cause, Cause::Unclassified);
    assert!(died.detail.contains("without answering"), "{died:?}");
    assert!(died.exit_code.is_none());
    assert!(died.disposition.is_none());
    assert!(died.stderr_tail.is_none());
}

/// A condemned member whose engine never answers is reported dead anyway.
#[test]
fn judge_a_condemned_member_whose_engine_never_answers_is_still_reported_dead() {
    let teardown = Teardown::begin(Rule::Activity, 0, 0);
    assert_eq!(teardown.hear(Heard::Gone), Stopping::Abandoned);
    let emission = teardown.abandoned();
    assert_eq!(emission.kind, EventKind::MemberDied);
    let died = death(&emission);
    assert_eq!(died.rule, "activity");
    assert_eq!(died.cause, Cause::Cancelled);
    assert!(died.detail.contains("activity"), "{died:?}");
    assert!(died.exit_code.is_none());
    assert!(died.disposition.is_none());
    assert!(died.stderr_tail.is_none());
}

/// A condemned member whose engine *does* tear itself down still dies by the rule
/// that condemned it — its chain is published as evidence.
#[test]
fn a_condemned_member_that_answers_still_dies_by_its_rule() {
    let error = onejudge::cli::CliError::Engine(onejudge::Error::provider_classified(
        "respond",
        "torn down",
        onejudge::ProviderErrorKind::Cancelled,
    ));
    let answer = Answer::Failed {
        telemetry: one_attribution(
            r#"{"role": "agent", "turn_index": 1, "ran": null,
                "fell_through": [{"harness": "codex", "reason": "auth"}], "candidates": []}"#,
        ),
        failure: failure(&error),
        error: error.to_string(),
    };
    let teardown = Teardown::begin(Rule::Heartbeat, 0, 1);
    assert_eq!(teardown.hear(Heard::Answer), Stopping::Answered);
    let mut events = evidence(&answer);
    events.push(teardown.stopped());
    assert_eq!(death(&events[1]).rule, "heartbeat");
    assert_eq!(
        kinds(&events),
        vec![EventKind::FallbackAdvanced, EventKind::MemberDied],
        "the chain a condemned member attempted is evidence either way"
    );
}

// ---- What a report says ----
#[test]
fn a_report_settles_its_member_and_says_where_its_turn_is() {
    let address = || Address {
        session: "run-1-worker-skill".to_string(),
        session_dir: None,
        cwd: "/work".to_string(),
    };
    let finished = finish(
        Answer::Reported {
            telemetry: None,
            control: Some(address()),
            control_unavailable: None,
            exit_code: 1,
        },
        false,
    );
    assert_eq!(kinds(&finished.ending.emissions), vec![EventKind::MemberSettled]);
    assert_eq!(carried_report(&finished.ending, None), None);
    assert_eq!(finished.control, Some(Turn::Open { address: address() }));
    assert_eq!(
        finished.ending.verdict,
        Verdict::Settled {
            completed: false,
            carried: None
        }
    );
    assert_eq!(
        record_control(None, None),
        Turn::Unavailable {
            reason: "this member's report named no controllable turn".to_string()
        }
    );
    assert_eq!(agent_session("run-1-worker"), "run-1-worker-skill");
    assert_eq!(spawn_args(Role::Agent, "/s/a.toml"), vec!["--config", "/s/a.toml"]);
    assert!(spawn_args(Role::Judge, "/s/a.toml").is_empty());
}

#[test]
fn a_stop_is_looked_for_beside_the_members() {
    assert_eq!(
        stop_files("/state/r-1/members/w", "signals"),
        Some((
            "/state/r-1/signals/stop".to_string(),
            "/state/r-1/signals/w.stop".to_string()
        ))
    );
    assert_eq!(stop_files("/", "signals"), None);
    assert_eq!(
        stop_files("./a", "signals"),
        Some(("signals/stop".to_string(), "signals/a.stop".to_string()))
    );
}

/// A note that comes too late is told which way the member is over.
#[test]
fn a_late_note_is_told_how_the_member_ended() {
    assert_eq!(
        terminal_refusal(Ended::Failed("boom".to_string())),
        Undelivered::MemberSettled {
            outcome: "its conversation failed: boom".to_string()
        }
    );
    assert_eq!(
        terminal_refusal(Ended::Settled {
            done_when: Some(("tests pass".to_string(), true)),
            settled_reason: None,
            completed: true,
        }),
        Undelivered::ConversationCompleted {
            completion_reason: "its supervisor judged \"tests pass\" satisfied".to_string()
        }
    );
    assert_eq!(
        condemned_refusal(Rule::Activity),
        Undelivered::MemberSettled {
            outcome: "the member was condemned by its activity watchdog".to_string()
        }
    );
    assert_eq!(
        terminal_refusal(Ended::Settled {
            done_when: None,
            settled_reason: None,
            completed: false,
        }),
        Undelivered::MemberSettled {
            outcome: "its conversation ended without completing".to_string()
        }
    );
}

/// A fixture holds the gap before the worker's next turn, and no other.
#[test]
fn a_fixture_holds_only_the_supervisors_close() {
    let closed = |role: Party| Observation::TurnClosed {
        turn: 1,
        role,
        usage: None,
        started_at: String::new(),
        finished_at: String::new(),
    };
    let gate = Some("/t/gate".to_string());
    assert_eq!(
        fixture_hold(&closed(Party::User), &gate),
        Some(("/t/gate".to_string(), "/t/gate.entered".to_string()))
    );
    assert_eq!(fixture_hold(&closed(Party::Assistant), &gate), None);
    assert_eq!(fixture_hold(&closed(Party::User), &None), None);
    assert_eq!(fixture_hold(&call(), &gate), None);
}
