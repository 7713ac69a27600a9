use oneagentgraph::event::{
    Artifact, Cause, EventKind, MemberSettled, Party, Payload, TurnActivity, TurnStarted, Usage,
    MAX_PAYLOAD_TEXT_BYTES,
};
use oneagentgraph::harness::{
    evidence, finish, ingest, ran, refuse_grouping, sink_event, ActionEvent, Fallback, HarnessLaunch,
    Reporting, RunOutcome, RunResult, SinkStep, TheTurn,
};
use oneagentgraph::judge::{advance, FellThrough};
use oneagentgraph::member::{
    engine_gone, engine_refused, is_stalled, settle_report, unstartable, Heard, Kind, Next, Rule,
    Stopping, Teardown, Verdict, Watch, REPORT_FILE,
};
use oneagentgraph::payload::{Emission, MemberDied};

fn call(name: Option<&str>) -> ActionEvent {
    ActionEvent {
        kind: "tool_call".into(),
        name: name.map(ToOwned::to_owned),
        detail: "just check".into(),
        output: None,
        tool_call_id: Some("t1".into()),
        index: 0,
    }
}

fn activity(emission: &Emission) -> &TurnActivity {
    match &emission.payload {
        Payload::TurnActivity(activity) => activity,
        other => panic!("not an activity: {other:?}"),
    }
}

fn started(emission: &Emission) -> &TurnStarted {
    match &emission.payload {
        Payload::TurnStarted(started) => started,
        other => panic!("not an opening: {other:?}"),
    }
}

fn death(emission: &Emission) -> &MemberDied {
    match &emission.payload {
        Payload::MemberDied(died) => died,
        other => panic!("not a death: {other:?}"),
    }
}

fn kinds(emissions: &[Emission]) -> Vec<EventKind> {
    emissions.iter().map(|emission| emission.kind).collect()
}

/// The first live event opens the member's one turn and reports what it acted on;
/// every event after it publishes under that same turn.
#[test]
fn the_first_live_event_opens_the_only_turn_and_the_rest_publish_under_it() {
    let mut turn = TheTurn::new("write the thing");
    let mut events: Vec<Emission> = Vec::new();
    for _ in 0..3 {
        let (published, step) = sink_event(&mut turn, &call(Some("bash")), false);
        assert_eq!(step, SinkStep::Continue);
        events.extend(published);
    }
    assert_eq!(
        kinds(&events),
        vec![
            EventKind::TurnStarted,
            EventKind::TurnActivity,
            EventKind::TurnActivity,
            EventKind::TurnActivity,
        ]
    );
    let opened = started(&events[0]);
    assert_eq!(opened.turn, 1);
    assert_eq!(opened.role, "assistant");
    assert_eq!(opened.instruction, "write the thing");
    assert!(opened.started_at.ends_with('Z'), "{opened:?}");
    let first = activity(&events[1]);
    assert_eq!(first.name.as_deref(), Some("bash"));
    assert_eq!(first.kind, "tool_call");
    assert_eq!(first.detail, "just check");
}

/// A `tool_result` names no tool because it answers one already named, and it is
/// published all the same: the observation, and the call identity that joins it
/// back.
#[test]
fn harness_an_observation_reaches_the_stream_with_the_identity_of_the_call_it_answers() {
    let emission = ingest(&ActionEvent {
        kind: "tool_result".into(),
        detail: String::new(),
        output: Some("2 passed; 0 failed".into()),
        index: 4,
        ..call(None)
    });
    assert_eq!(emission.kind, EventKind::TurnActivity);
    let activity = activity(&emission);
    assert_eq!(activity.kind, "tool_result");
    assert_eq!(activity.name, None);
    assert_eq!(activity.output.as_deref(), Some("2 passed; 0 failed"));
    assert_eq!(activity.tool_call_id.as_deref(), Some("t1"));
    assert_eq!(activity.index, 4);
}

/// An observation the trace did not expose is absent; one that was genuinely empty
/// is an empty string. A consumer can tell the two apart, and a call carries
/// neither.
#[test]
fn an_absent_observation_and_an_empty_one_are_different_facts() {
    let unexposed = ActionEvent {
        kind: "tool_result".into(),
        detail: String::new(),
        output: None,
        ..call(None)
    };
    let first = ingest(&unexposed);
    let second = ingest(&ActionEvent {
        output: Some(String::new()),
        ..unexposed
    });
    let third = ingest(&call(Some("bash")));
    assert_eq!(
        activity(&first).output,
        None,
        "an observation the trace never exposed was published as one"
    );
    assert_eq!(activity(&second).output.as_deref(), Some(""));
    assert_eq!(
        activity(&third).output,
        None,
        "a call was published carrying an observation"
    );
}

/// A long observation keeps its **tail** at the payload bound, and says it was cut
/// — what names a failure is the last of a tool's output.
#[test]
fn a_long_observation_keeps_its_tail_at_the_published_payload_bound() {
    let long = format!(
        "{}the test suite failed",
        "x".repeat(MAX_PAYLOAD_TEXT_BYTES)
    );
    let emission = ingest(&ActionEvent {
        kind: "tool_result".into(),
        detail: String::new(),
        output: Some(long),
        ..call(None)
    });
    let activity = activity(&emission);
    let output = activity.output.as_deref().expect("an observation");
    assert!(output.ends_with("the test suite failed"), "{output}");
    assert!(output.len() <= MAX_PAYLOAD_TEXT_BYTES);
    assert!(activity.output_truncated);
    // The summary bound is its own and is untouched by the output's.
    assert!(!activity.truncated);
}

/// The instruction this member's one turn answers keeps its **head** at the same
/// bound, and says it was cut — a turn's opening is where the model says what it is
/// about to do.
#[test]
fn a_long_instruction_keeps_its_opening_at_the_published_payload_bound() {
    let long = format!("write the thing{}", "é".repeat(MAX_PAYLOAD_TEXT_BYTES));
    let opened = TheTurn::new(&long).open().expect("announced");
    let opened = started(&opened);
    assert!(opened.instruction.starts_with("write the thing"));
    assert!(
        opened.instruction.len() < MAX_PAYLOAD_TEXT_BYTES,
        "the cut did not walk back to a boundary: {}",
        opened.instruction.len()
    );
    assert!(opened.instruction_truncated);

    // And a prompt inside the bound is served whole, saying nothing about a cut
    // that never happened.
    let opened = TheTurn::new("write the thing").open().expect("announced");
    let opened = started(&opened);
    assert_eq!(opened.instruction, "write the thing");
    assert!(!opened.instruction_truncated, "{opened:?}");
}

/// A cancelled run's next event is answered with a stop, so a condemned member
/// stops at that event.
#[test]
fn a_cancelled_run_answers_the_next_event_with_stop() {
    let mut turn = TheTurn::new("write the thing");
    assert_eq!(
        sink_event(&mut turn, &call(Some("bash")), false).1,
        SinkStep::Continue
    );
    assert_eq!(
        sink_event(&mut turn, &call(Some("bash")), true).1,
        SinkStep::Stop
    );
}

/// A member whose engine thread **panics** fails that member: the watch reads an
/// engine that ended without answering.
#[test]
fn harness_a_panicking_engine_kills_its_own_member_and_not_the_process() {
    let mut watch = Watch::new(0, 60_000, 1_000);
    assert_eq!(watch.step(Heard::Gone, 5, false), Next::Gone);
    let ending = engine_gone(Kind::Oneharness);
    assert_eq!(ending.verdict, Verdict::Died(Rule::ProviderFailure));
    assert_eq!(kinds(&ending.emissions), vec![EventKind::MemberDied]);
    let died = death(&ending.emissions[0]);
    assert_eq!(died.cause, Cause::Unclassified);
    assert!(died.detail.contains("without answering"), "{died:?}");
    assert_eq!(died.detail, "the oneharness engine ended without answering");
    // None of the three a child process leaves behind: this member was not one.
    assert!(died.exit_code.is_none());
    assert!(died.disposition.is_none());
    assert!(died.stderr_tail.is_none());
}

/// A condemned member whose engine never answers is reported dead anyway, and the
/// run is not left waiting on it.
#[test]
fn harness_a_condemned_member_whose_engine_never_answers_is_still_reported_dead() {
    let teardown = Teardown::begin(Rule::Activity, 1_000, 2);
    assert!(teardown.waits(5_999));
    assert!(!teardown.waits(6_000));
    assert_eq!(teardown.hear(Heard::Gone), Stopping::Abandoned);
    let emission = teardown.abandoned();
    assert_eq!(emission.kind, EventKind::MemberDied);
    let died = death(&emission);
    assert_eq!(died.rule, "activity");
    assert_eq!(died.cause, Cause::Cancelled);
    assert!(died.detail.contains("activity"), "{died:?}");
    assert_eq!(
        died.detail,
        "the activity rule condemned this member; 2 process(es) were signalled and its engine did \
         not answer inside 5s, so the run gave up on it"
    );
}

fn fell(harness: &str, reason: &str) -> FellThrough {
    FellThrough {
        harness: harness.to_string(),
        reason: reason.to_string(),
    }
}

fn reasons(emissions: &[Emission]) -> Vec<(String, String)> {
    emissions
        .iter()
        .map(|emission| match &emission.payload {
            Payload::FallbackAdvanced(advanced) => {
                (advanced.identity.clone(), advanced.reason.clone())
            }
            other => panic!("not an advance: {other:?}"),
        })
        .collect()
}

/// Every candidate the chain stepped past is published with oneharness's own
/// spelling of why, and a run with no chain publishes nothing.
#[test]
fn every_candidate_the_chain_stepped_past_is_published() {
    let mut events: Vec<Emission> = Vec::new();
    advance(&vec![fell("cursor-agent", "quota")], None, None, &mut events);
    assert_eq!(kinds(&events), vec![EventKind::FallbackAdvanced]);
    assert_eq!(
        reasons(&events),
        vec![("cursor-agent".to_string(), "quota".to_string())]
    );

    let mut quiet: Vec<Emission> = Vec::new();
    advance(&Vec::new(), None, None, &mut quiet);
    assert!(quiet.is_empty());
}

/// The reasons a **precondition refusal** classifies as, published as the tokens
/// oneharness spells them with.
#[test]
fn a_precondition_refusal_publishes_its_own_reason() {
    let mut events: Vec<Emission> = Vec::new();
    advance(
        &vec![
            fell("codex", "untrusted-directory"),
            fell("cursor-agent", "input-too-large"),
        ],
        None,
        None,
        &mut events,
    );
    let published: Vec<String> = reasons(&events).into_iter().map(|it| it.1).collect();
    assert_eq!(published, vec!["untrusted-directory", "input-too-large"]);
}

/// The turn a member's config asked for is the request oneharness is handed,
/// argument for argument.
#[test]
fn a_members_launch_becomes_the_request_its_argv_used_to_be() {
    let launch = HarnessLaunch {
        config: "/scratch/oneharness.toml".to_string(),
        worktree: "/work/api".to_string(),
        prompt: "report in".to_string(),
        reporting: Reporting::Streamed,
    };
    let request = launch.request();
    assert_eq!(request.config, "/scratch/oneharness.toml");
    assert_eq!(request.cwd, "/work/api");
    assert!(request.events, "the turn asked for no tool events");
    assert!(request.stream);
    assert_eq!(request.prompt, vec!["report in".to_string()]);

    // A member whose own config asked for a buffered report carries that decision.
    let buffered = HarnessLaunch {
        reporting: Reporting::Buffered,
        ..launch
    };
    assert!(!buffered.request().stream);
}

// ---- How an answered run ends ----
fn usage(input: u64) -> Usage {
    Usage {
        input_tokens: Some(input),
        ..Usage::default()
    }
}

fn result(harness_id: &str, harness: &str, input: u64) -> RunResult {
    RunResult {
        harness_id: harness_id.to_string(),
        harness: harness.to_string(),
        usage: usage(input),
    }
}

fn outcome(settled: bool) -> RunOutcome {
    RunOutcome {
        results: vec![result("codex:b", "codex", 7)],
        fallback: Some(Fallback {
            ran: Some("codex:b".to_string()),
            fell_through: vec![fell("qwen", "auth")],
        }),
        exit_code: if settled { 0 } else { -3 },
        failure_summary: None,
    }
}

#[test]
fn a_turn_that_settled_is_announced_and_closed() {
    let mut turn = TheTurn::at("write", "2026-01-01T00:00:00.000Z".to_string());
    let ending = finish(Ok(outcome(true)), None, &mut turn, "2026-01-01T00:00:01.000Z");
    assert_eq!(
        kinds(&ending.emissions),
        vec![
            EventKind::FallbackAdvanced,
            EventKind::TurnStarted,
            EventKind::TurnCompleted,
            EventKind::MemberSettled
        ]
    );
    assert_eq!(
        ending.emissions[3].payload,
        Payload::MemberSettled(MemberSettled { completed: true })
    );
    assert_eq!(
        ending.verdict,
        Verdict::Settled {
            completed: true,
            carried: None
        }
    );
    // The turn was announced and closed, and is otherwise as it was.
    assert!(turn.opened);
    assert_eq!((turn.prompt.as_str(), turn.started_at.as_str()), ("write", "2026-01-01T00:00:00.000Z"));
    match &ending.emissions[2].payload {
        Payload::TurnCompleted(closed) => {
            assert_eq!(closed.usage, usage(7));
            assert_eq!(closed.role, Party::Assistant.as_str());
            assert_eq!(closed.started_at, "2026-01-01T00:00:00.000Z");
            assert_eq!(closed.finished_at, "2026-01-01T00:00:01.000Z");
        }
        other => panic!("not a close: {other:?}"),
    }
}

#[test]
fn a_run_that_did_not_settle_died() {
    let mut turn = TheTurn::at("write", "now".to_string());
    let ending = finish(Ok(outcome(false)), None, &mut turn, "later");
    assert_eq!(ending.verdict, Verdict::Died(Rule::ProviderFailure));
    let died = death(&ending.emissions[1]);
    assert_eq!(died.detail, "the turn exited -3 without a report");
    assert_eq!(died.cause, Cause::Unclassified);
    assert!(!turn.opened);

    let mut said = outcome(false);
    said.failure_summary = Some("  quota spent \n".to_string());
    let ending = finish(Ok(said), None, &mut turn, "later");
    assert_eq!(death(&ending.emissions[1]).detail, "quota spent");

    // A harness outside the group outranks whatever the report says.
    let mut held = None;
    refuse_grouping(&mut held, "spawning", "EPERM");
    refuse_grouping(&mut held, "spawned", "ESRCH");
    let ending = finish(Ok(outcome(true)), held, &mut turn, "later");
    assert_eq!(ending.verdict, Verdict::Died(Rule::ProviderFailure));
    let died = death(&ending.emissions[1]);
    assert_eq!(died.cause, Cause::Spawn);
    assert!(died.detail.contains("(spawning: EPERM)"), "{died:?}");

    let ending = finish(Err("no such config".to_string()), None, &mut turn, "later");
    assert_eq!(
        ending.verdict,
        Verdict::Unstartable("no such config".to_string())
    );
    assert_eq!(kinds(&ending.emissions), vec![EventKind::MemberDied]);
}

/// The chain a condemned member attempted is evidence either way.
#[test]
fn a_condemned_members_answer_is_worth_its_chain() {
    assert_eq!(
        reasons(&evidence(&Ok(outcome(true)))),
        vec![("qwen".to_string(), "auth".to_string())]
    );
    assert!(evidence(&Err("no request".to_string())).is_empty());
}

/// The result that is a member's turn: the first of a run without a chain, and the
/// last one under the identity a chain says ran.
#[test]
fn the_candidate_that_ran_is_the_one_accounted_for() {
    let results = vec![
        result("qwen", "qwen", 1),
        result("codex:a", "codex", 2),
        result("codex:b", "codex", 3),
    ];
    let chain = |name: Option<&str>| {
        Some(Fallback {
            ran: name.map(ToOwned::to_owned),
            fell_through: Vec::new(),
        })
    };
    assert_eq!(ran(&results, &None), Some(usage(1)));
    assert_eq!(ran(&results, &chain(Some("codex:a"))), Some(usage(2)));
    assert_eq!(ran(&results, &chain(Some("codex"))), Some(usage(3)));
    assert_eq!(ran(&results, &chain(Some("else"))), Some(usage(3)));
    assert_eq!(ran(&results, &chain(None)), None);
    assert_eq!(ran(&Vec::new(), &None), None);
}

// ---- Watching a member ----
#[test]
fn a_watch_publishes_rarely_and_condemns_the_late_and_the_stalled() {
    let mut watch = Watch::new(0, 60_000, 1_000);
    assert_eq!(watch.publish_every, 15_000);
    assert_eq!(
        watch.step(Heard::Nothing, 1_000, false),
        Next::Listen { publish: false }
    );
    assert_eq!(
        watch.step(Heard::Nothing, 15_000, false),
        Next::Listen { publish: true }
    );
    assert_eq!(
        watch.step(Heard::Nothing, 16_000, true),
        Next::Condemn {
            rule: Rule::Activity,
            publish: false
        }
    );
    assert_eq!(
        watch.step(Heard::Nothing, 80_000, true),
        Next::Condemn {
            rule: Rule::Heartbeat,
            publish: false
        }
    );
    assert_eq!(watch.step(Heard::Answer, 80_000, true), Next::Finish);
}

#[test]
fn a_member_given_no_thread_never_started() {
    let ending = engine_refused("EAGAIN");
    assert_eq!(
        ending.verdict,
        Verdict::Unstartable("cannot start this member's engine thread: EAGAIN".to_string())
    );
    assert_eq!(death(&ending.emissions[0]).cause, Cause::Spawn);
    let emission = unstartable(" no config ");
    let died = death(&emission);
    assert_eq!((died.detail.as_str(), died.rule.as_str()), ("no config", "provider-failure"));
}

/// A teardown counts what it signals, and never past what it can hold.
#[test]
fn a_teardown_counts_what_it_signals() {
    let mut teardown = Teardown::begin(Rule::Heartbeat, 0, 1);
    teardown.count(2);
    assert_eq!(
        death(&teardown.stopped()).detail,
        "the heartbeat rule condemned this member; its engine tore down 3 process(es) and stopped"
    );
    teardown.count(u64::MAX);
    assert_eq!(teardown.reaped, u64::MAX);
    assert_eq!(teardown.hear(Heard::Answer), Stopping::Answered);
    assert_eq!(teardown.hear(Heard::Nothing), Stopping::Reap);
}

/// The report of a member that settled is stored in its scratch and attached to its
/// settle; a member that died has none.
#[test]
fn a_settled_members_report_is_stored_and_attached() {
    let mut turn = TheTurn::at("write", "now".to_string());
    let settled = finish(Ok(outcome(true)), None, &mut turn, "later");
    let settling = settle_report(settled, "/scratch/w", "{\"é\":1}");
    let file = settling.file.expect("a report");
    assert_eq!(file.path, format!("/scratch/w/{REPORT_FILE}"));
    assert_eq!(file.content, "{\"é\":1}");
    let last = settling.ending.emissions.last().expect("a settle");
    assert_eq!(last.kind, EventKind::MemberSettled);
    assert_eq!(
        last.artifacts,
        vec![Artifact {
            id: "/scratch/w/report.json".to_string(),
            kind: "report".to_string(),
            bytes: 8
        }]
    );

    let died = finish(Ok(outcome(false)), None, &mut turn, "later");
    let kinds_before = kinds(&died.emissions);
    let settling = settle_report(died, "/scratch/w", "{}");
    assert_eq!(settling.file, None);
    assert_eq!(kinds(&settling.ending.emissions), kinds_before);
}

/// A member is stalled past its bound, and not while its processes are at work.
#[test]
fn a_stall_is_silence_past_the_bound_with_nothing_at_work() {
    assert!(!is_stalled(100, 400, 300, false));
    assert!(is_stalled(100, 401, 300, false));
    assert!(!is_stalled(100, 401, 300, true));
    assert!(!is_stalled(500, 400, 0, false));
}
