use oneagentgraph::catalog::{
    check_personas, complain, created_line, personas_under, role, scaffold_path, Checked, Entry,
    Role, Target, Walk,
};
use oneagentgraph::cli::{CancelArgs, InterruptArgs, MemberArgs, OutputFormat, RunArgs};
use oneagentgraph::control::{Address, Delivery, Turn};
use oneagentgraph::error::{
    Error, EXIT_MEMBER_FAILED, EXIT_NO_CONTROLLABLE_TURN, EXIT_SUCCESS,
};
use oneagentgraph::event::{EventKind, LabelValue, Payload};
use oneagentgraph::health;
use oneagentgraph::history::{events, is_run_id, list, run_dir, show, Record};
use oneagentgraph::preflight::unbuildable;
use oneagentgraph::verbs::{
    approach, belongs_to_run, cancel, cancelled_line, conclude, detached_args, detaching, diagnostic,
    exit_status,
    input_bytes, interrupted, made_worktree, member_name, needs_worktree, never_recorded,
    oneharness_bin, publish, redirection, requested_task, scratch_of, settled, show_history,
    signal, smoke_lines, started_line, started_run, state_dir, temp_dir, temp_root,
    valid_line, Approach, Detaching, Interrupted, Output, Signal,
};

fn record(run_id: &str, started_ms: u64) -> Record {
    Record {
        run_id: run_id.to_string(),
        graph: "./g.yaml".to_string(),
        name: "g".to_string(),
        started_ms,
        finished_ms: None,
        exit_code: None,
        declared_members: Vec::new(),
        members: Vec::new(),
        events_path: format!("/state/{run_id}/events.jsonl"),
    }
}

fn ids(records: &[Record]) -> Vec<&str> {
    records.iter().map(|record| record.run_id.as_str()).collect()
}

// ---- History ----
/// A listing is newest first, and one unreadable run never hides the rest.
#[test]
fn a_listing_is_newest_first_and_survives_a_torn_record() {
    let listed = list(vec![Some(record("old", 1)), None, Some(record("new", 2))]);
    assert_eq!(ids(&listed), vec!["new", "old"]);
    assert!(list(Vec::new()).is_empty());
}

/// Runs that started together are listed by their ids.
#[test]
fn runs_that_started_together_are_listed_by_id() {
    let listed = list(vec![
        Some(record("b", 7)),
        Some(record("c", 9)),
        Some(record("a", 7)),
        Some(record("d", 1)),
    ]);
    assert_eq!(ids(&listed), vec!["c", "a", "b", "d"]);
}

/// `show` reads one run and its stream, and names a run that is not there.
#[test]
fn show_reads_one_run_and_names_one_that_is_not_there() {
    let shown = show("/state", "r-1", Ok(record("r-1", 1)));
    assert_eq!(shown.expect("a record").run_id, "r-1");
    let stream = events(
        show("/state", "r-1", Ok(record("r-1", 1))),
        Ok("{\"v\":1}\n".to_string()),
    );
    assert_eq!(stream.expect("a stream"), "{\"v\":1}\n");

    let gone = || show("/state", "ghost", Err("No such file".to_string()));
    let err = gone().unwrap_err().message();
    assert!(err.contains("no run \"ghost\""), "{err}");
    assert_eq!(
        err,
        "invalid config: no run \"ghost\" under /state: No such file"
    );
    assert!(events(gone(), Ok(String::new())).is_err());
}

/// A record naming a stream that is gone says which file.
#[test]
fn a_missing_stream_names_the_file() {
    let err = events(Ok(record("r-2", 1)), Err("No such file".to_string()))
        .unwrap_err()
        .message();
    assert!(err.contains("events.jsonl"), "{err}");
}

/// A run id is one component, and never a way out of the store.
#[test]
fn a_run_id_is_never_a_path() {
    assert!(is_run_id("g-1786925518098-3163646"));
    for escape in ["", "../up", "a/b", "a.b", "a b"] {
        assert!(!is_run_id(escape), "{escape:?}");
        let err = show("/state", escape, Ok(record("r", 1))).unwrap_err();
        assert!(err.message().contains("is not a run id"), "{escape:?}");
    }
    assert_eq!(run_dir("/state", "r-1"), "/state/r-1");
}

#[test]
fn a_listing_says_what_each_run_exited_with() {
    let mut done = record("done", 2);
    done.exit_code = Some(-1);
    let records = vec![done, record("live", 1)];
    assert_eq!(
        show_history(&None, &records).expect("a listing"),
        vec!["done\t-1\tg", "live\trunning\tg"]
    );
    assert_eq!(
        show_history(&Some("live".to_string()), &records).expect("a listing"),
        vec!["live\trunning\tg"]
    );
    assert_eq!(
        show_history(&Some("other".to_string()), &records)
            .unwrap_err()
            .message(),
        "invalid config: no run \"other\""
    );
    assert!(show_history(&None, &Vec::new()).expect("a listing").is_empty());
}

/// Configuration oneharness will not load is reported as that, carrying its own
/// diagnostic.
#[test]
fn configuration_oneharness_will_not_load_is_reported_as_that() {
    let err = oneharness_core::io::usage::report(&oneharness_core::io::usage::UsageRequest {
        config: vec!["/no/such/oneharness.toml".into()],
        all: true,
        ..oneharness_core::io::usage::UsageRequest::default()
    })
    .map(|_| ())
    .expect_err("oneharness refuses a config it cannot read");
    let reported = health::read::<()>(Err(err.to_string())).unwrap_err().message();
    assert!(reported.contains("this host's identities"), "{reported}");
    assert!(
        reported.contains("/no/such/oneharness.toml"),
        "oneharness's own diagnostic did not survive: {reported}"
    );
    assert_eq!(health::read(Ok(3)).expect("a report"), 3);
}

// ---- Where a command works ----
#[test]
fn the_environment_says_where_a_command_works() {
    let env = |pairs: &[(&str, &str)]| -> Vec<(String, String)> {
        pairs
            .iter()
            .map(|pair| (pair.0.to_string(), pair.1.to_string()))
            .collect()
    };
    assert_eq!(
        state_dir(&env(&[("HOME", "/home/o"), ("ONEAGENTGRAPH_STATE_DIR", "/s")]), "/tmp"),
        "/s"
    );
    assert_eq!(
        state_dir(&env(&[("HOME", "/home/o")]), "/tmp"),
        "/home/o/.local/state/oneagentgraph/runs"
    );
    assert_eq!(
        state_dir(&env(&[]), "/tmp"),
        "/tmp/.local/state/oneagentgraph/runs"
    );
    assert_eq!(temp_root(&env(&[("TMPDIR", "/big")]), "/tmp"), "/big");
    assert_eq!(temp_root(&env(&[]), "/tmp"), "/tmp");
    assert_eq!(oneharness_bin(&env(&[])), "oneharness");
    assert_eq!(
        oneharness_bin(&env(&[("ONEAGENTGRAPH_ONEHARNESS_BIN", "/opt/oh")])),
        "/opt/oh"
    );
    assert_eq!(temp_dir("/tmp", "oag-", "smoke", 41), "/tmp/oag-smoke-41");
    assert_eq!(exit_status(3), 3);
    assert_eq!(exit_status(-1), 1);
    assert_eq!(exit_status(256), 1);
}

// ---- Run ----
fn run_args() -> RunArgs {
    RunArgs {
        graph: "g.yaml".to_string(),
        task: None,
        task_file: None,
        dir: None,
        label: Vec::new(),
        set: Vec::new(),
        event_filter: None,
        output: OutputFormat::Json,
        detach: true,
    }
}

#[test]
fn a_task_comes_from_one_flag() {
    let unread = || Err("unread".to_string());
    assert_eq!(requested_task(&run_args(), unread()).expect("none"), None);
    let mut args = run_args();
    args.task = Some("do it".to_string());
    assert_eq!(
        requested_task(&args, unread()).expect("a task").as_deref(),
        Some("do it")
    );
    args.task_file = Some("t.md".to_string());
    assert!(requested_task(&args, unread())
        .unwrap_err()
        .message()
        .contains("give exactly one"));
    args.task = None;
    assert_eq!(
        requested_task(&args, Ok("from file".to_string()))
            .expect("a task")
            .as_deref(),
        Some("from file")
    );
    assert_eq!(
        requested_task(&args, Err("denied".to_string()))
            .unwrap_err()
            .message(),
        "invalid config: cannot read --task-file t.md: denied"
    );
}

#[test]
fn a_detached_run_is_this_one_without_detaching() {
    assert_eq!(detached_args(&run_args()), vec!["run", "g.yaml"]);
    let args = RunArgs {
        task: Some("do it".to_string()),
        dir: Some("/w".to_string()),
        label: vec!["a=1".to_string(), "b=2".to_string()],
        set: vec!["name=x".to_string()],
        event_filter: Some("f.json".to_string()),
        ..run_args()
    };
    assert_eq!(
        detached_args(&args),
        vec![
            "run",
            "g.yaml",
            "--task",
            "do it",
            "--dir",
            "/w",
            "--label",
            "a=1",
            "--label",
            "b=2",
            "--set",
            "name=x",
            "--event-filter",
            "f.json"
        ]
    );
}

#[test]
fn the_run_that_was_started_is_the_one_that_was_not_there() {
    let known = vec!["b".to_string(), "a".to_string()];
    let records = vec![record("a", 9), record("c", 8), record("b", 7), record("d", 6)];
    assert_eq!(started_run(&known, &records), Some(1));
    assert_eq!(started_run(&known, &vec![record("a", 1)]), None);
    assert!(never_recorded().message().contains("did not record itself"));

    // The wait ends with the line of the run that appeared, or is given up.
    assert!(matches!(
        detaching(&known, &records, 41, 0),
        Detaching::Started(line)
            if line == started_line(&records[1], 41)
    ));
    assert!(matches!(detaching(&known, &vec![record("a", 1)], 41, 9_999), Detaching::Wait));
    assert!(matches!(
        detaching(&known, &records, 41, 10_000),
        Detaching::GiveUp(error) if error.message().contains("did not record itself")
    ));
    let started: serde_json::Value =
        serde_json::from_str(&started_line(&records[1], 41)).expect("JSON");
    assert_eq!(started["run_id"], "c");
    assert_eq!(started["events_path"], records[1].events_path.as_str());
    assert_eq!(started["pid"], 41);
}

#[test]
fn a_graph_that_can_run_says_how_many_members_it_has() {
    assert_eq!(valid_line("g", 3), "g: 3 member(s) OK");
    assert_eq!(
        unbuildable("w", &Error::InvalidConfig("no task".to_string())).message(),
        "invalid config: member \"w\": invalid config: no task"
    );
}

// ---- Addressing a member ----
fn member_args(run: &str, member: &str) -> MemberArgs {
    MemberArgs {
        run: run.to_string(),
        member: member.to_string(),
    }
}

fn live() -> Record {
    let mut live = record("r-1", 1);
    live.declared_members = vec!["a".to_string(), "w".to_string()];
    live
}

/// A signal goes under the run's own id, in a file named after the member and the
/// signal.
#[test]
fn a_signal_is_left_in_the_runs_own_directory() {
    let left = signal(
        "/state",
        "signals",
        &member_args("r-1", "w"),
        Ok(live()),
        Signal::Trigger,
    )
    .expect("left");
    assert_eq!(left.dir, "/state/r-1/signals");
    assert_eq!(left.file.path, "/state/r-1/signals/w.trigger");
    assert_eq!(left.file.content, "trigger");
    assert_eq!(left.line, "r-1: w trigger");
    assert_eq!(Signal::Reset.as_str(), "reset");

    for (run, member, read, expected) in [
        ("r-1", "../w", Ok(live()), "a member name is letters"),
        ("../r", "w", Ok(live()), "is not a run id"),
        ("r-1", "w", Err("gone".to_string()), "no run \"r-1\" under /state: gone"),
        ("r-1", "x", Ok(live()), "run \"r-1\" has no member \"x\"; it has a, w"),
    ] {
        let refused = signal("/state", "signals", &member_args(run, member), read, Signal::Reset);
        let err = refused.unwrap_err().message();
        assert!(err.contains(expected), "{run} {member}: {err}");
    }
}

/// A record that names no members is not second-guessed, and one from before they
/// were declared falls back to those that settled.
#[test]
fn membership_is_read_off_what_a_record_knows() {
    let mut record = record("r", 1);
    assert!(belongs_to_run(&record, "r", "any").is_ok());
    record.members = vec!["s".to_string()];
    assert!(belongs_to_run(&record, "r", "s").is_ok());
    assert!(belongs_to_run(&record, "r", "any").is_err());
    assert!(member_name("worker_2-a").is_ok());
    assert!(!settled(&record, "any"));
    assert!(settled(&record, "s"));
    record.exit_code = Some(0);
    assert!(settled(&record, "any"));
}

#[test]
fn a_cancel_is_scoped_to_what_it_names() {
    let args = |member: Option<&str>, kill: bool| CancelArgs {
        run: "r-1".to_string(),
        member: member.map(ToOwned::to_owned),
        kill,
    };
    let whole = cancel("/state", "signals", &args(None, true), Ok(live())).expect("cancelled");
    assert_eq!(whole.file.path, "/state/r-1/signals/stop");
    assert_eq!(whole.scratch, "/state/r-1");
    let one = cancel("/state", "signals", &args(Some("w"), true), Ok(live())).expect("cancelled");
    assert_eq!(one.file.path, "/state/r-1/signals/w.stop");
    assert_eq!(one.file.content, "stop");
    assert_eq!(one.scratch, "/state/r-1/members/w");
    assert_eq!(scratch_of("/state", "r-1", "w"), one.scratch);
    assert!(cancel("/state", "signals", &args(Some("x"), true), Ok(live())).is_err());
    assert_eq!(cancelled_line(&args(None, false), 0), "r-1: cancelled");
    assert_eq!(
        cancelled_line(&args(Some("w"), true), 2),
        "r-1: cancelled member w, 2 process(es) signalled"
    );
}

// ---- Interrupt ----
fn interrupt_args(input: Option<&str>, file: Option<&str>) -> InterruptArgs {
    InterruptArgs {
        run: "r-1".to_string(),
        member: "w".to_string(),
        input: input.map(ToOwned::to_owned),
        input_file: file.map(ToOwned::to_owned),
    }
}

#[test]
fn a_redirection_is_one_text_that_says_something() {
    let unread = || Err("unread".to_string());
    assert_eq!(redirection(&interrupt_args(None, None), unread()).expect("none"), None);
    assert_eq!(
        redirection(&interrupt_args(Some(" é "), None), unread())
            .expect("input")
            .as_deref(),
        Some(" é ")
    );
    for (args, read, expected) in [
        (interrupt_args(Some("a"), Some("f")), unread(), "give at most one"),
        (interrupt_args(Some(" \n"), None), unread(), "--input is blank"),
        (interrupt_args(None, Some("f")), Ok("\t".to_string()), "--input is blank"),
        (
            interrupt_args(None, Some("f")),
            Err("denied".to_string()),
            "cannot read --input-file f: denied",
        ),
    ] {
        let err = redirection(&args, read).unwrap_err().message();
        assert!(err.contains(expected), "{err}");
    }
    assert_eq!(input_bytes(&Some("é!".to_string())), 3);
    assert_eq!(input_bytes(&None), 0);
}

#[test]
fn only_an_open_turn_of_a_live_member_is_delivered_to() {
    let address = || Address {
        session: "s".to_string(),
        session_dir: None,
        cwd: "/w".to_string(),
    };
    let open = || Ok(Turn::Open { address: address() });
    assert_eq!(approach(open(), false), Approach::Deliver(address()));
    assert_eq!(
        approach(open(), true),
        Approach::NoTurn("the member has already settled, so its turn is over".to_string())
    );
    let unavailable = Ok(Turn::Unavailable {
        reason: "no lever".to_string(),
    });
    assert_eq!(approach(unavailable, true), Approach::NoTurn("no lever".to_string()));
    assert_eq!(
        approach(Err("no record".to_string()), false),
        Approach::NoTurn("no record".to_string())
    );
}

#[test]
fn a_delivery_decides_how_an_interrupt_exits() {
    let done = interrupted(Delivery::Delivered).expect("delivered");
    assert_eq!((done.code, done.reason), (EXIT_SUCCESS, None));
    let none = interrupted(Delivery::NoTurn("between turns".to_string())).expect("a fact");
    assert_eq!(none.code, EXIT_NO_CONTROLLABLE_TURN);
    assert_eq!(diagnostic("r-1", "w", &none), None);
    let failed = interrupted(Delivery::Failed("boom".to_string())).expect("a failure");
    assert_eq!(
        failed,
        Interrupted {
            code: EXIT_MEMBER_FAILED,
            reason: Some("boom".to_string())
        }
    );
    assert_eq!(
        diagnostic("r-1", "w", &failed).as_deref(),
        Some("oneagentgraph: r-1: could not interrupt member w: boom")
    );
    assert_eq!(
        interrupted(Delivery::Invalid("too long".to_string()))
            .unwrap_err()
            .message(),
        "invalid config: --input: too long"
    );
}

/// Every outcome publishes one event, on a stream of its own.
#[test]
fn an_interrupt_is_published_whatever_came_of_it() {
    let emitted = publish("r-1", "w", 77, 5, Some("between turns".to_string()));
    assert!(emitted.admitted);
    let envelope = emitted.envelope;
    assert_eq!(envelope.stream, "r-1-interrupt-77");
    assert_eq!(envelope.seq, 0);
    assert_eq!(envelope.kind, EventKind::TurnInterrupted);
    assert_eq!(envelope.labels.run_id.as_deref(), Some("r-1"));
    assert_eq!(envelope.labels.member.as_deref(), Some("w"));
    assert_eq!(
        envelope.labels.extra,
        vec![(
            "session".to_string(),
            LabelValue::Text("r-1-interrupt-77.w".to_string())
        )]
    );
    match envelope.payload {
        Payload::TurnInterrupted(payload) => {
            assert!(!payload.delivered);
            assert_eq!(payload.input_bytes, 5);
            assert_eq!(payload.reason.as_deref(), Some("between turns"));
        }
        other => panic!("{other:?}"),
    }
}

#[test]
fn an_interrupt_concludes_with_one_event() {
    let args = interrupt_args(Some("stop"), None);
    let input = Some("stop".to_string());
    let failed = conclude(&args, "r-1", 7, &input, Delivery::Failed("boom".to_string()));
    let failed = failed.expect("concluded");
    assert_eq!(failed.code, EXIT_MEMBER_FAILED);
    assert!(failed.diagnostic.expect("said").ends_with("member w: boom"));
    match failed.event.envelope.payload {
        Payload::TurnInterrupted(payload) => {
            assert_eq!(payload.input_bytes, 4);
            assert_eq!(payload.reason.as_deref(), Some("boom"));
        }
        other => panic!("{other:?}"),
    }
    let landed = conclude(&args, "r-1", 7, &input, Delivery::Delivered).expect("concluded");
    assert_eq!((landed.code, landed.diagnostic), (EXIT_SUCCESS, None));
    assert!(conclude(&args, "r-1", 7, &input, Delivery::Invalid("no".to_string())).is_err());
}

// ---- Smoke ----
#[test]
fn a_smoke_says_what_it_took() {
    let past = vec![("qwen".to_string(), "auth".to_string())];
    assert_eq!(
        smoke_lines(&past, "codex", 2),
        vec![
            "smoke: fell through qwen (auth); the chain handed the turn on",
            "smoke: passed via codex after 2 attempts"
        ]
    );
    assert_eq!(
        smoke_lines(&Vec::new(), "codex", 1),
        vec!["smoke: passed via codex"]
    );
}

#[test]
fn a_directory_inside_a_worktree_is_left_alone() {
    let output = |success: bool, stdout: &str, stderr: &str| Output {
        success,
        stdout: stdout.as_bytes().to_vec(),
        stderr: stderr.to_string(),
    };
    assert!(!needs_worktree("/w", Ok(output(true, "true\n", ""))).expect("asked"));
    assert!(needs_worktree("/w", Ok(output(true, "false\n", ""))).expect("asked"));
    assert!(needs_worktree("/w", Ok(output(false, "true\n", ""))).expect("asked"));
    assert_eq!(
        needs_worktree("/w", Err("no git".to_string()))
            .unwrap_err()
            .message(),
        "invalid config: cannot inspect /w with git: no git"
    );
    assert!(made_worktree("/w", Ok(output(true, "", ""))).is_ok());
    for made in [
        Err("denied".to_string()),
        Ok(output(false, "", "  denied\n")),
    ] {
        assert_eq!(
            made_worktree("/w", made).unwrap_err().message(),
            "invalid config: cannot initialize /w as a git repository: denied"
        );
    }
}

// ---- Personas ----
fn entry(path: &str, is_dir: bool) -> Entry {
    Entry {
        path: path.to_string(),
        name: path.rsplit('/').next().unwrap_or_default().to_string(),
        is_text: true,
        is_dir,
    }
}

#[test]
fn a_walk_finds_the_personas_and_skips_the_scaffold() {
    for (path, is_dir, expected) in [
        ("/p/lead.yaml", false, Role::Persona),
        ("/p/_template.yaml", false, Role::Skip),
        ("/p/_drafts", true, Role::Skip),
        ("/p/team", true, Role::Descend),
        ("/p/team.yaml", true, Role::Descend),
        ("/p/notes.md", false, Role::Skip),
        ("/p/.yaml", false, Role::Skip),
        ("/p/lead.yaml.bak", false, Role::Skip),
        ("/p/yaml", false, Role::Skip),
    ] {
        assert_eq!(role(&entry(path, is_dir)), expected, "{path}");
        let host = std::path::Path::new(path).extension() == Some("yaml".as_ref());
        assert_eq!(
            host,
            role(&Entry {
                path: path.to_string(),
                name: path.rsplit('/').next().unwrap_or_default().replace('_', "x"),
                is_text: true,
                is_dir: false,
            }) == Role::Persona,
            "{path}"
        );
    }

    // A name that is not text is no template's, and its extension still counts.
    for (name, expected) in [("_\u{fffd}.yaml", Role::Persona), ("a\u{fffd}.yam\u{fffd}", Role::Skip)] {
        let unreadable = Entry {
            path: format!("/p/{name}"),
            name: name.to_string(),
            is_text: false,
            is_dir: false,
        };
        assert_eq!(role(&unreadable), expected, "{name}");
    }

    let mut walk = Walk::from("/p");
    assert_eq!(walk.next().as_deref(), Some("/p"));
    walk.take(
        "/p",
        Ok(vec![
            Ok(entry("/p/z.yaml", false)),
            Ok(entry("/p/team", true)),
            Ok(entry("/p/_t.yaml", false)),
        ]),
    )
    .expect("read");
    assert_eq!(walk.next().as_deref(), Some("/p/team"));
    walk.take("/p/team", Ok(vec![Ok(entry("/p/team/a.yaml", false))]))
        .expect("read");
    assert_eq!(walk.next(), None);
    assert_eq!(
        personas_under("/p", Target::Directory, walk.found).expect("personas"),
        vec!["/p/team/a.yaml", "/p/z.yaml"]
    );

    let mut walk = Walk::from("/p");
    assert_eq!(
        walk.take("/p", Err("denied".to_string())).unwrap_err().message(),
        "invalid config: cannot read /p: denied"
    );
    assert_eq!(
        walk.take("/p", Ok(vec![Ok(entry("/p/a.yaml", false)), Err("torn".to_string())]))
            .unwrap_err()
            .message(),
        "invalid config: cannot read an entry of /p: torn"
    );
}

/// Paths are ordered as the standard library orders them: by their components.
#[test]
fn personas_are_ordered_by_component() {
    let paths = ["/p/b.yaml", "/p/a-b.yaml", "/p/a/x.yaml", "/p/a/é.yaml", "/p/a"];
    let mut wanted: Vec<std::path::PathBuf> = paths.iter().map(std::path::PathBuf::from).collect();
    wanted.sort();
    let wanted: Vec<String> = wanted.iter().map(|path| path.display().to_string()).collect();
    let given: Vec<String> = paths.iter().map(|path| (*path).to_string()).collect();
    assert_eq!(
        personas_under("/p", Target::Directory, given).expect("personas"),
        wanted
    );
    assert_eq!(
        personas_under("lead.yaml", Target::File, Vec::new()).expect("a persona"),
        vec!["lead.yaml"]
    );
    assert_eq!(
        personas_under("x", Target::Missing, Vec::new()).unwrap_err().message(),
        "invalid config: no persona at x"
    );
    assert_eq!(
        personas_under("x", Target::Directory, Vec::new()).unwrap_err().message(),
        "invalid config: no personas under x"
    );
}

#[test]
fn checking_personas_counts_the_ones_that_failed() {
    let wrong = Checked::Parsed(vec!["no role".to_string(), "no persona".to_string()]);
    assert_eq!(
        complain("a.yaml", &wrong),
        (
            vec!["a.yaml: no role".to_string(), "a.yaml: no persona".to_string()],
            true
        )
    );
    let unparsed = Checked::Unparsed(Error::InvalidConfig("not YAML".to_string()));
    assert_eq!(
        complain("b.yaml", &unparsed),
        (vec!["invalid config: not YAML".to_string()], true)
    );
    assert_eq!(complain("c.yaml", &Checked::Parsed(Vec::new())), (Vec::new(), false));
    let right = || ("c.yaml".to_string(), Checked::Parsed(Vec::new()));
    let (lines, verdict) = check_personas("p", &vec![right(), right()]);
    assert!(lines.is_empty());
    assert_eq!(verdict.expect("ok"), "p: OK");
    let (lines, verdict) = check_personas(
        "p",
        &vec![("a.yaml".to_string(), wrong), right(), ("b.yaml".to_string(), unparsed)],
    );
    assert_eq!(
        lines,
        vec!["a.yaml: no role", "a.yaml: no persona", "invalid config: not YAML"]
    );
    assert_eq!(
        verdict.unwrap_err().message(),
        "invalid config: 2 persona(s) invalid"
    );
    assert_eq!(scaffold_path("team/lead"), "team/lead.yaml");
    assert!(created_line("x.yaml").contains("persona validate x.yaml`."));
}
