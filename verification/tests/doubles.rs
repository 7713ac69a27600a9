use oneagentgraph::fake_harness::{
    answer, flag, prompt, recorded, selection_environment, sentinel, sentinel_path, steer, Named,
    Refusal, Turn,
};
use oneagentgraph::fake_llmlint::{argv_line, ask, conclude, Asked, Report, Verdict};
use oneagentgraph::fake_provider::{
    assistant_turns, first_user_message, read_request, reported_blocker, respond, retryable, Message,
    Request,
};
use oneagentgraph::fake_view::{bulk, script, End, Script, Step};
use oneagentgraph::search::{contains, read_code, read_count, split};

fn args(words: &[&str]) -> Vec<String> {
    words.iter().map(|word| (*word).to_string()).collect()
}

fn pairs(entries: &[(&str, &str)]) -> Vec<(String, String)> {
    entries
        .iter()
        .map(|entry| (entry.0.to_string(), entry.1.to_string()))
        .collect()
}

// ---- Searching ----
#[test]
fn searching_answers_as_the_standard_library_does() {
    for (text, pattern) in [
        ("change", "hang"),
        ("aab", "ab"),
        ("", ""),
        ("a", ""),
        ("a", "ab"),
        ("é—é", "—"),
    ] {
        assert_eq!(contains(text, pattern), text.contains(pattern), "{text:?} {pattern:?}");
    }
    for (text, separator) in [("a. b. c", ". "), ("", "x"), ("x", "x"), ("aaa", "aa"), (". ", ". ")] {
        let wanted: Vec<String> = text.split(separator).map(ToOwned::to_owned).collect();
        assert_eq!(split(text, separator), wanted, "{text:?} {separator:?}");
    }
}

#[test]
fn numbers_are_read_as_the_standard_library_reads_them() {
    for text in [
        "0", "7", "-7", "+7", "", "+", "-", "--1", "1a", " 1", "2147483647", "2147483648",
        "-2147483648", "-2147483649", "007", "99999999999999999999999", "-0",
        "18446744073709551615", "18446744073709551616",
    ] {
        assert_eq!(read_code(text), text.parse::<i32>().ok(), "{text:?}");
        assert_eq!(read_count(text), text.parse::<usize>().ok(), "{text:?}");
    }
}

// ---- The harness ----
#[test]
fn a_refusal_is_one_of_a_closed_set() {
    assert_eq!(Refusal::parse(""), Some(None));
    assert_eq!(Refusal::parse("auth"), Some(Some(Refusal::Auth)));
    assert_eq!(Refusal::parse("quota"), Some(Some(Refusal::Quota)));
    assert_eq!(Refusal::parse("rate_limit"), Some(Some(Refusal::RateLimit)));
    assert_eq!(Refusal::parse("rate-limit"), None);
}

#[test]
fn a_prompt_is_both_halves() {
    let argv = args(&["-p", "do it", "--system", "be brief"]);
    assert_eq!(prompt(&argv), "be brief\ndo it");
    assert_eq!(flag(&argv, "--system").as_deref(), Some("be brief"));
    assert_eq!(flag(&args(&["-p"]), "-p"), None);
    assert_eq!(prompt(&args(&[])), "\n");
}

#[test]
fn a_sentinel_is_the_rest_of_its_word() {
    let prompt = "go fake:hold=/tmp/x/gate\nand fake:hold=/other";
    assert_eq!(sentinel(prompt, "fake:hold=").as_deref(), Some("/tmp/x/gate"));
    assert_eq!(sentinel(prompt, "fake:none="), None);
    assert_eq!(
        sentinel_path(prompt, "hold", true),
        Named::Usable("/tmp/x/gate".to_string())
    );
    assert_eq!(sentinel_path("nothing here", "hold", true), Named::Nothing);
    for (prompt, parent) in [
        ("fake:hold=/tmp/x/gate", false),
        ("fake:hold=relative/gate", true),
        ("fake:hold=/tmp/../gate", true),
        ("fake:hold=", true),
    ] {
        match sentinel_path(prompt, "hold", parent) {
            Named::Unusable(why) => assert!(
                why.starts_with("fake-harness: fake:hold must name an absolute path"),
                "{why}"
            ),
            other => panic!("{prompt}: {other:?}"),
        }
    }
    assert_eq!(recorded("a\nb"), "a\\nb");
}

#[test]
fn each_framing_is_answered_as_its_side() {
    for (prompt, expected) in [
        (
            "completion supervisor",
            "{\"completion\":true,\"reason\":\"fake supervisor verified completion\"}",
        ),
        (
            "completion supervisor should-fail",
            "{\"completion\":false,\"message\":\"verify it before you call it done\",\
             \"reason\":\"fake supervisor requires another turn\"}",
        ),
        ("role-playing the USER", "verify it before you call it done"),
        (
            "Criterion: should-fail",
            "{\"value\":false,\"reason\":\"fake judge verdict\"}",
        ),
        ("Assessment request:", "None"),
        ("complete-now", "done"),
        ("", "working on it"),
    ] {
        assert_eq!(answer(prompt), expected, "{prompt:?}");
    }
}

#[test]
fn only_the_variables_a_choice_travels_in_are_recorded() {
    let env = pairs(&[
        ("Z_MODE", "b\""),
        ("PATH", "/bin"),
        ("A_HARNESSES", "codex"),
        ("ONEAGENTGRAPH_TEST_X", "1"),
        ("MODEL", "no"),
        ("B_MODEL", "m"),
    ]);
    assert_eq!(
        selection_environment(&env),
        "{\"A_HARNESSES\":\"codex\",\"B_MODEL\":\"m\",\"ONEAGENTGRAPH_TEST_X\":\"1\",\
         \"Z_MODE\":\"b\\\"\"}"
    );
    assert_eq!(selection_environment(&Vec::new()), "{}");
}

#[test]
fn a_turn_is_steered_by_its_variables_and_then_its_prompt() {
    let exit = |turn: Turn| match turn {
        Turn::Exit {
            stdout,
            stderr,
            code,
        } => (stdout, stderr, code),
        other => panic!("{other:?}"),
    };
    let (_, said, code) = exit(steer(Some("7"), "quota", "s", "p"));
    assert_eq!(code, 7);
    assert_eq!(
        said.as_deref(),
        Some("fake-harness: exiting 7 having published nothing")
    );
    let (_, said, code) = exit(steer(Some("x"), "", "s", "p"));
    assert_eq!(code, 2);
    assert!(said.expect("said").ends_with("got \"x\""));
    assert_eq!(exit(steer(None, "nope", "s", "p")).2, 2);
    assert_eq!(exit(steer(None, "auth", "s", "p")).2, 1);
    for refusal in ["quota", "rate_limit"] {
        let (line, _, _) = exit(steer(None, refusal, "s", "p"));
        let line: serde_json::Value = serde_json::from_str(&line.expect("a line")).expect("json");
        assert_eq!(line["api_error_status"].as_u64(), Some(429));
    }
    assert_eq!(steer(None, "", "s", "please fake:hang"), Turn::Hang);
    match steer(None, "", "the \"session\"", "complete-now") {
        Turn::Answer(lines) => {
            let read: Vec<serde_json::Value> = lines
                .iter()
                .map(|line| serde_json::from_str(line).expect("json"))
                .collect();
            assert_eq!(read[0]["session_id"].as_str(), Some("the \"session\""));
            assert_eq!(
                read[1]["message"]["content"][0]["input"]["command"].as_str(),
                Some("just check")
            );
            assert_eq!(read[2]["result"].as_str(), Some("done"));
            assert_eq!(read[2]["usage"]["cache_read_input_tokens"].as_u64(), Some(4));
            assert_eq!(read[2]["total_cost_usd"].as_f64(), Some(0.002));
        }
        other => panic!("{other:?}"),
    }
}

// ---- The linter ----
#[test]
fn a_linter_concludes_what_it_was_told() {
    let lint = args(&["lint", "--diff"]);
    let text = |value: &str| Some(value.to_string());
    assert_eq!(ask(&lint, &None, &None), Asked::Report(conclude(true)));
    assert_eq!(ask(&lint, &text("fail"), &None), Asked::Report(conclude(false)));
    assert_eq!(
        ask(&lint, &text("fail-once"), &text("/m")),
        Asked::Once("/m".to_string())
    );
    let code = |asked: Asked| match asked {
        Asked::Report(Report { code, stderr, .. }) => (code, stderr),
        other => panic!("{other:?}"),
    };
    assert_eq!(code(ask(&lint, &text("fail-once"), &None)).0, 2);
    assert_eq!(code(ask(&lint, &text("broken"), &None)).0, 2);
    assert_eq!(
        code(ask(&lint, &text("maybe"), &None)).1,
        "fake-llmlint: FAKE_LLMLINT_VERDICT must be pass, fail, fail-once, or broken; got \
         \"maybe\"\n"
    );
    assert_eq!(code(ask(&args(&["--version"]), &text("broken"), &None)).0, 0);
    assert_eq!(
        code(ask(&args(&["check", "x y"]), &None, &None)).1,
        "fake-llmlint: expected `lint` or `--version`, got [\"check\", \"x y\"]\n"
    );
    assert_eq!(Verdict::parse(&text("pass")), Ok(Verdict::Pass));
    assert!(conclude(false).stdout.contains("1 violation, 2 rules hold\n"));
}

// ---- The provider ----
fn said(role: &str, content: &str) -> Message {
    Message {
        role: Some(role.to_string()),
        content: Some(content.to_string()),
    }
}

const PERSONA: &str = "Keep going. A command that timed\nout is not terminal: retry it. Stop when \
                       the tree is gone.";

#[test]
fn a_blocker_is_read_off_the_last_turn() {
    let messages = vec![
        said("user", "do it fake:should-fail"),
        said("assistant", "blocker: old."),
        said("assistant", "I tried.\n  blocker:  a command that timed out. \nbye"),
        said("user", "blocker: not mine"),
    ];
    assert_eq!(
        reported_blocker(&messages).as_deref(),
        Some("a command that timed out")
    );
    assert_eq!(first_user_message(&messages), "do it fake:should-fail");
    assert_eq!(assistant_turns(&messages), 2);
    assert_eq!(reported_blocker(&vec![said("assistant", "fine")]), None);
    assert_eq!(reported_blocker(&Vec::new()), None);
    assert!(retryable(PERSONA, "timed out"));
    assert!(!retryable(PERSONA, "the tree is gone"));
}

fn request(op: &str, messages: Vec<Message>) -> Request {
    Request {
        op: Some(op.to_string()),
        messages: Some(messages),
        persona: Some(PERSONA.to_string()),
        kind: None,
        max: None,
    }
}

#[test]
fn a_supervisor_releases_by_its_persona() {
    let blocked = |condition: &str| {
        vec![
            said("user", "do it"),
            said("assistant", &format!("blocker: {condition}")),
        ]
    };
    let retried = respond(&request("supervisor", blocked("timed out"))).expect("an answer");
    assert!(retried.contains("run it again and keep going: timed out"), "{retried}");
    let released = respond(&request("supervisor", blocked("the tree is gone"))).expect("an answer");
    assert_eq!(
        released,
        "{\"completion\":false,\"reason\":\"terminal blocker reported: the tree is gone\"}"
    );
    let done = respond(&request(
        "supervisor",
        vec![said("user", "do it"), said("assistant", "done")],
    ));
    assert!(done.expect("an answer").contains("\"completion\":true"));
    let more = respond(&request("supervisor", vec![said("user", "do it")]));
    assert!(more.expect("an answer").contains("requires another turn"));
}

#[test]
fn a_request_that_cannot_be_answered_is_refused() {
    let judged = |kind: Option<&str>, max: Option<u64>| {
        let mut judge = request("judge", vec![said("user", "do it")]);
        judge.kind = kind.map(ToOwned::to_owned);
        judge.max = max;
        respond(&judge).expect("a verdict")
    };
    assert_eq!(
        judged(Some("boolean"), None),
        "{\"value\":true,\"reason\":\"fake judge verdict\"}"
    );
    assert_eq!(
        judged(None, Some(9)),
        "{\"value\":9,\"reason\":\"fake numeric verdict\"}"
    );
    assert_eq!(
        judged(None, None),
        "{\"value\":5,\"reason\":\"fake numeric verdict\"}"
    );
    assert_eq!(
        respond(&request("assess", Vec::new())).expect("an answer"),
        "{\"text\":\"None\"}"
    );
    assert!(respond(&request("user", Vec::new())).expect("an answer").contains("\"stop\":false"));
    assert_eq!(
        respond(&request("sing", Vec::new())).unwrap_err(),
        "fake-provider: unknown op Some(\"sing\")"
    );
    let mut bare = request("supervisor", Vec::new());
    bare.persona = None;
    assert!(respond(&bare).unwrap_err().contains("no `persona`"));
    bare.messages = None;
    assert!(respond(&bare).unwrap_err().contains("no `messages`"));
    bare.messages = Some(Vec::new());
    bare.op = None;
    assert_eq!(respond(&bare).unwrap_err(), "fake-provider: unknown op None");
}

// ---- The view ----
#[test]
fn a_view_prints_what_it_is_told() {
    assert_eq!(
        script(&args(&["--say", "hi", "--complain", "oh", "--fail", "-3", "--hang"])),
        Script {
            steps: vec![
                Step::Say("hi\n".to_string()),
                Step::Complain("oh\n".to_string())
            ],
            end: End::Exit {
                code: -3,
                hang: true
            },
        }
    );
    assert_eq!(
        bulk(40),
        "row 0 of the prepared view\nrow 1 of the prepared view\n"
    );
    assert_eq!(bulk(27).len(), 27);
    assert_eq!(bulk(28).len(), 54);
    assert_eq!(bulk(0), "");
    assert!(bulk(1000).contains("row 11 of"));
    let refused = |words: &[&str]| match script(&args(words)).end {
        End::Refused(why) => why,
        other => panic!("{other:?}"),
    };
    assert_eq!(refused(&["--say"]), "--say takes a value");
    assert_eq!(
        refused(&["--bulk", "-1"]),
        "--bulk takes a count of bytes, not \"-1\""
    );
    assert_eq!(
        refused(&["--fail", "x"]),
        "--fail takes an exit code, not \"x\""
    );
    assert_eq!(refused(&["--loud"]), "unknown argument \"--loud\"");
    assert_eq!(
        script(&args(&["--say", "hi", "--loud"])).steps,
        vec![Step::Say("hi\n".to_string())]
    );
}

/// A request is read from its own text, and what is not of the type an answer reads is
/// as if it were not there.
#[test]
fn a_request_is_read_from_its_text() {
    let request = read_request(
        r#"{"op": "judge", "kind": "numeric", "max": 9, "persona": 4,
            "messages": [{"role": "user", "content": "a\tb"}, {"role": 1, "content": [2]}, "x"]}"#,
    )
    .expect("a request");
    let message = |role: Option<&str>, content: Option<&str>| Message {
        role: role.map(ToOwned::to_owned),
        content: content.map(ToOwned::to_owned),
    };
    assert_eq!(
        request,
        Request {
            op: Some("judge".to_string()),
            messages: Some(vec![
                message(Some("user"), Some("a\tb")),
                message(None, None),
                message(None, None),
            ]),
            persona: None,
            kind: Some("numeric".to_string()),
            max: Some(9),
        }
    );
    assert_eq!(
        respond(&request),
        Ok("{\"value\":9,\"reason\":\"fake numeric verdict\"}".to_string())
    );

    let bare = read_request("[]").expect("a request");
    assert_eq!(bare.messages, None);
    assert_eq!(bare.op, None);
    assert_eq!(read_request("{\"max\": -1}").expect("a request").max, None);
    assert_eq!(
        read_request("{\"op\":").unwrap_err(),
        "fake-provider: the request is not JSON"
    );
}

/// An invocation's arguments are logged as one JSON array.
#[test]
fn an_argv_is_logged_as_one_json_array() {
    assert_eq!(argv_line(&args(&["lint", "a\"b\n"])), "[\"lint\",\"a\\\"b\\n\"]");
    assert_eq!(argv_line(&Vec::new()), "[]");
}
