use oneagentgraph::control::{
    act_on, deliver, explain, interrupt_args, path, read, settle_delivery, Address, Delivery, Found,
    Ran, Reason, Record, Turn, CONTROL_SCHEMA_VERSION,
};
use oneagentgraph::json_read::{node_at, Node};

fn address() -> Address {
    Address {
        session: "node-scope-1-worker".into(),
        session_dir: None,
        cwd: "/work/repo".into(),
    }
}

/// A record's file with what a reader that lets every field pass makes of it.
fn found(raw: &str) -> Option<Found> {
    Some(Found {
        raw: raw.to_string(),
        record: lenient(raw),
    })
}

fn lenient(raw: &str) -> Result<Record, String> {
    let json: serde_json::Value = serde_json::from_str(raw).map_err(|err| err.to_string())?;
    let field = |value: &serde_json::Value, key: &str| value[key].as_str().map(ToOwned::to_owned);
    let turn = &json["turn"];
    let turn = match turn["state"].as_str() {
        Some("open") => Turn::Open {
            address: Address {
                session: field(&turn["address"], "session").ok_or("no session")?,
                session_dir: field(&turn["address"], "session_dir"),
                cwd: field(&turn["address"], "cwd").ok_or("no directory")?,
            },
        },
        Some("unavailable") => Turn::Unavailable {
            reason: field(turn, "reason").ok_or("no reason")?,
        },
        _ => return Err("no state".to_string()),
    };
    let version = json["schema_version"].as_u64().ok_or("no version")?;
    Ok(Record {
        schema_version: u32::try_from(version).map_err(|err| err.to_string())?,
        turn,
    })
}

/// The record round-trips, and an absent one is the fact `interrupt` reports rather
/// than a failure it invents.
#[test]
fn a_recorded_turn_reads_back_as_what_the_run_wrote() {
    assert!(read("/scratch", None)
        .unwrap_err()
        .contains("opened no controllable turn"));

    let file = oneagentgraph::control::write("/scratch", &Turn::Open { address: address() });
    assert_eq!(file.path, path("/scratch"));
    assert_eq!(
        read("/scratch", found(&file.content)).expect("a record"),
        Turn::Open { address: address() }
    );

    // A store the run named is carried too.
    let named = Turn::Open {
        address: Address {
            session_dir: Some("/state/\"sessions\"".to_string()),
            ..address()
        },
    };
    let file = oneagentgraph::control::write("/scratch", &named);
    assert_eq!(read("/scratch", found(&file.content)), Ok(named));

    // The second write is the report's answer, and it replaces the first.
    let file = oneagentgraph::control::write(
        "/scratch",
        &Turn::Unavailable {
            reason: "harness `qwen` has no out-of-band turn control".into(),
        },
    );
    assert!(
        matches!(read("/scratch", found(&file.content)).expect("a record"),
            Turn::Unavailable { reason } if reason.contains("no out-of-band turn control")),
        "the refusal did not replace the address"
    );
}

/// A record from a build that knew more is refused by version, and one that is not
/// a record at all is refused by name — neither is guessed at.
#[test]
fn an_unreadable_record_is_refused_rather_than_guessed_at() {
    // Both ends of the range: a build that knew more, and a version no build of this
    // crate ever wrote.
    for version in [0, 99] {
        let raw = format!(
            "{{\"schema_version\":{version},\"turn\":{{\"state\":\"open\",\"address\":\
             {{\"session\":\"s\",\"cwd\":\"/w\"}}}}}}"
        );
        assert!(
            read("/scratch", found(&raw))
                .unwrap_err()
                .contains(&format!("schema version {version}")),
            "version {version} was acted on"
        );
    }
    assert!(read("/scratch", found("not a record"))
        .unwrap_err()
        .contains("not one this build can read"));

    // A field this build does not know is refused rather than dropped, at every level
    // of the record.
    for hostile in [
        "{\"schema_version\":1,\"turn\":{\"state\":\"open\",\"address\":{\"session\":\"s\",\"cwd\":\"/w\"}},\"extra\":1}",
        "{\"schema_version\":1,\"turn\":{\"state\":\"open\",\"addres\":{\"session\":\"s\",\"cwd\":\"/w\"},\"address\":{\"session\":\"s\",\"cwd\":\"/w\"}}}",
        "{\"schema_version\":1,\"turn\":{\"state\":\"unavailable\",\"reason\":\"no lever\",\"why\":\"no lever\"}}",
    ] {
        assert!(
            read("/scratch", found(hostile))
                .unwrap_err()
                .contains("not one this build can read"),
            "{hostile} was accepted"
        );
    }
    assert_eq!(CONTROL_SCHEMA_VERSION, 1);
}

/// A record this build did not write is what its reader made of it, in the reader's own
/// words where it made nothing.
#[test]
fn a_record_of_another_writer_is_what_its_reader_made_of_it() {
    // The same turn, spaced as this build does not write it.
    let raw = "{ \"turn\": {\"state\": \"unavailable\", \"reason\": \"r\"}, \"schema_version\": 1 }";
    let turn = || Turn::Unavailable {
        reason: "r".to_string(),
    };
    assert_eq!(read("/scratch", found(raw)), Ok(turn()));

    // A list of the fields in order, which the reader of a struct takes too.
    let listed = Found {
        raw: "[1,{\"state\":\"unavailable\",\"reason\":\"r\"}]".to_string(),
        record: Ok(Record {
            schema_version: 1,
            turn: turn(),
        }),
    };
    assert_eq!(read("/scratch", Some(listed)), Ok(turn()));

    // A field given twice, which it does not.
    let doubled = Found {
        raw: "{\"schema_version\":1,\"schema_version\":1,\"turn\":{\"state\":\"unavailable\",\
              \"reason\":\"r\"}}"
            .to_string(),
        record: Err("duplicate field `schema_version` at line 1 column 37".to_string()),
    };
    assert_eq!(
        read("/scratch", Some(doubled)).unwrap_err(),
        "the turn-control record at /scratch/control.json is not one this build can read \
         (duplicate field `schema_version` at line 1 column 37)"
    );
}

/// A field this build does not know is refused by its name, whatever its reader made of
/// the record.
#[test]
fn an_unknown_field_is_refused_by_its_name() {
    for (raw, key) in [
        (
            "{\"schema_version\":1,\"turn\":{\"state\":\"unavailable\",\"reason\":\"r\"},\"x\":1}",
            "x",
        ),
        (
            "{\"schema_version\":1,\"turn\":{\"state\":\"unavailable\",\"reason\":\"r\",\"address\":1}}",
            "address",
        ),
        (
            "{\"schema_version\":1,\"turn\":{\"state\":\"open\",\"address\":{\"session\":\"s\",\
             \"cwd\":\"/w\"},\"reason\":\"r\"}}",
            "reason",
        ),
        (
            "{\"schema_version\":1,\"turn\":{\"state\":\"open\",\"address\":{\"session\":\"s\",\
             \"cwd\":\"/w\",\"dir\":\"/d\"}}}",
            "dir",
        ),
    ] {
        assert!(lenient(raw).is_ok(), "{raw}");
        assert_eq!(
            read("/scratch", found(raw)).unwrap_err(),
            format!(
                "the turn-control record at /scratch/control.json is not one this build can read \
                 (unknown field `{key}`)"
            )
        );
    }
    // So is a text that is no JSON.
    let torn = Found {
        raw: "{\"schema_version\":1".to_string(),
        record: Ok(Record {
            schema_version: 1,
            turn: Turn::Unavailable {
                reason: "r".to_string(),
            },
        }),
    };
    assert!(read("/scratch", Some(torn))
        .unwrap_err()
        .contains("not one this build can read (EOF"));
}

/// Every character a turn can carry is read back as it was written.
#[test]
fn a_turn_of_hostile_texts_reads_back() {
    for reason in ["", "a\"b\\c\n\t\u{0}\u{1f}\u{7f}", "\u{2028}\u{1F600} é", "{\"turn\":1}"] {
        let turn = || Turn::Unavailable {
            reason: reason.to_string(),
        };
        let file = oneagentgraph::control::write("/scratch", &turn());
        assert_eq!(read("/scratch", found(&file.content)), Ok(turn()));
    }
}

/// What stands at a place of a document, of each kind there is.
#[test]
fn a_place_of_a_document_is_looked_at() {
    let raw = "{\"a\":{\"b\":\"x\\ny\",\"c\":null},\"n\":7,\"m\":-7,\"l\":[true,{\"k\":1}]}";
    let keys = |names: &[&str]| Node::Object(names.iter().map(|it| (*it).to_string()).collect());
    for (pointer, node) in [
        ("", keys(&["a", "n", "m", "l"])),
        ("/a", keys(&["b", "c"])),
        ("/a/b", Node::Text("x\ny".to_string())),
        ("/a/c", Node::Null),
        ("/a/d", Node::Missing),
        ("/n", Node::Count(7)),
        ("/m", Node::Other),
        ("/l", Node::List(2)),
        ("/l/0", Node::Other),
        ("/l/1/k", Node::Count(1)),
        ("/l/2", Node::Missing),
    ] {
        assert_eq!(node_at(raw, pointer), Ok(node), "{pointer}");
    }
    assert!(node_at("{", "/a").is_err());
}

/// A record is acted on by its version.
#[test]
fn a_record_is_acted_on_by_its_version() {
    let turn = || Turn::Unavailable {
        reason: "no lever".to_string(),
    };
    let record = |schema_version: u32| {
        Ok(Record {
            schema_version,
            turn: turn(),
        })
    };
    assert_eq!(act_on("/s", record(1)), Ok(turn()));
    assert!(act_on("/s", record(7))
        .unwrap_err()
        .ends_with("names schema version 7, and this build reads 1 to 1"));
}

/// Every refusal oneharness can answer with says which of the causes applies, in
/// words rather than in its own token.
#[test]
fn every_refusal_names_which_cause_applies() {
    assert!(explain(Reason::NoActiveTurn).contains("between turns"));
    assert!(explain(Reason::NotRunning).contains("already ended"));
    assert!(explain(Reason::Unsupported).contains("no out-of-band turn control"));
}

/// A delivery to a binary that is not there is a failure naming the binary, not a
/// turn that was found to be absent.
#[test]
fn a_missing_oneharness_is_a_failed_delivery_rather_than_an_absent_turn() {
    let delivery = deliver(
        "oneagentgraph-no-such-oneharness",
        Ran::NotRun("No such file or directory".to_string()),
    );
    assert!(
        matches!(&delivery, Delivery::Failed(reason)
            if reason.contains("oneagentgraph-no-such-oneharness")),
        "a binary that is not there was not reported as a failed delivery: {delivery:?}"
    );
}

/// The store directory is the one part of an address that is only sometimes on the
/// command line.
#[test]
fn an_address_is_spelled_on_the_command_line() {
    assert_eq!(
        interrupt_args(&address(), Some("do this instead")),
        vec![
            "interrupt",
            "--session",
            "node-scope-1-worker",
            "--cwd",
            "/work/repo",
            "--compact",
            "--input",
            "do this instead"
        ]
    );
    let named = Address {
        session_dir: Some("/state/oneharness/sessions".into()),
        ..address()
    };
    assert_eq!(
        interrupt_args(&named, None),
        vec![
            "interrupt",
            "--session",
            "node-scope-1-worker",
            "--session-dir",
            "/state/oneharness/sessions",
            "--cwd",
            "/work/repo",
            "--compact"
        ]
    );
}

fn ended(code: i32, stdout: &str, stderr: &str) -> Ran {
    Ran::Ended {
        code: Some(code),
        stdout: stdout.as_bytes().to_vec(),
        stderr: stderr.to_string(),
    }
}

/// What oneharness answered is read off its own frame, as its own type writes one.
#[test]
fn an_answer_frame_decides_before_the_exit_code_does() {
    let served = oneharness_core::domain::control::ControlResponse::Served {
        mechanism: oneharness_core::domain::control::ControlShape::CodexAppServer,
        redirected: true,
    };
    let served = serde_json::to_string(&served).expect("a frame");
    assert_eq!(deliver("oneharness", ended(2, &served, "")), Delivery::Delivered);

    let refused = oneharness_core::domain::control::ControlResponse::Refused {
        error: "the run ended".to_string(),
        reason: oneharness_core::domain::control::ControlReason::NotRunning,
    };
    let refused = serde_json::to_string(&refused).expect("a frame");
    assert_eq!(
        deliver("oneharness", ended(3, &refused, "")),
        Delivery::NoTurn(explain(Reason::NotRunning))
    );

    // No frame at all: the exit code says whether the argument was at fault.
    assert_eq!(
        deliver("oneharness", ended(2, "", "  --input is blank\n")),
        Delivery::Invalid("--input is blank".to_string())
    );
    assert!(matches!(
        deliver("oneharness", ended(1, "nonsense", "boom")),
        Delivery::Failed(why) if why.contains("its standard error said: boom")
    ));
    assert_eq!(
        settle_delivery(
            "oh",
            None,
            Err("no bytes".to_string()),
            "killed".to_string()
        ),
        Delivery::Failed(
            "`oh interrupt` answered nothing this build could read (no bytes); its standard error \
             said: killed"
                .to_string()
        )
    );
}
