use oneagentgraph::event::{
    bound_detail, bound_head, bound_text, session_label, Cause, Disposition, Emitted, Emitter,
    EventFilter, EventKind, LabelValue, Labels, Matcher, Sequence, Source, ENVELOPE_VERSION,
    MAX_ACTIVITY_DETAIL_CHARS, MAX_PAYLOAD_TEXT_BYTES, MAX_SESSION_CHARS, SESSION_LABEL,
};
use oneagentgraph::glob::glob;
use oneagentgraph::session::SESSION_DIGEST_CHARS;

/// The envelopes a stream carries: those of `emitted` that were admitted.
fn written(emitted: Vec<Emitted<()>>) -> Vec<oneagentgraph::event::Envelope<()>> {
    emitted
        .into_iter()
        .filter(|it| it.admitted)
        .map(|it| it.envelope)
        .collect()
}

fn extra(labels: &Labels, key: &str) -> Option<String> {
    labels.extra.iter().find(|entry| entry.0 == key).map(|entry| match &entry.1 {
        LabelValue::Text(text) => text.clone(),
        LabelValue::Other(json) => format!("not text: {json}"),
    })
}

fn text(value: &str) -> LabelValue {
    LabelValue::Text(value.to_string())
}

/// `seq` is monotonic per stream, and it stays so across the derived emitters a
/// graph hands to its members — they are one producing process.
#[test]
fn seq_is_monotonic_across_every_derived_emitter() {
    let mut sequence = Sequence::default();
    let emitter = Emitter::new("run-1".to_string());
    let member = emitter.with_labels(Labels {
        member: Some("worker".into()),
        ..Labels::default()
    });
    let written = written(vec![
        emitter.emit(&mut sequence, EventKind::GraphStarted, ()),
        member.emit(&mut sequence, EventKind::MemberStarted, ()),
        emitter.emit(&mut sequence, EventKind::GraphSettled, ()),
    ]);
    assert_eq!(
        written.iter().map(|e| e.seq).collect::<Vec<_>>(),
        vec![0, 1, 2]
    );
    assert!(written
        .iter()
        .all(|e| e.stream == "run-1" && e.v == ENVELOPE_VERSION));
    assert_eq!(written[1].labels.member.as_deref(), Some("worker"));
    assert_eq!(written[0].labels.member, None);
    assert_eq!(emitter.stream(), "run-1");
}

/// An enricher never rewrites: a member's own label survives a later stamp, and a
/// graph-level label reaches a member that did not set one.
#[test]
fn labels_are_stamped_but_never_rewritten() {
    let mut sequence = Sequence::default();
    let base = Emitter::new("s".to_string()).with_labels(Labels {
        run_id: Some("R".into()),
        member: Some("graph".into()),
        extra: vec![("tier".to_string(), text("gate"))],
        ..Labels::default()
    });
    let member = base.with_labels(Labels {
        member: Some("worker".into()),
        round: Some(2),
        extra: vec![("tier".to_string(), text("member"))],
        ..Labels::default()
    });
    let written = written(vec![member.emit(&mut sequence, EventKind::MemberStarted, ())]);
    assert_eq!(written[0].labels.run_id.as_deref(), Some("R"));
    assert_eq!(written[0].labels.member.as_deref(), Some("worker"));
    assert_eq!(written[0].labels.round, Some(2));
    assert_eq!(extra(&written[0].labels, "tier").as_deref(), Some("member"));
}

/// Text fields are bounded at the documented byte count, keeping the tail and never
/// splitting a character.
#[test]
fn payload_text_is_bounded_at_its_documented_size() {
    let (short, cut) = bound_text("brief");
    assert_eq!((short.as_str(), cut), ("brief", false));

    // `é` is two bytes, so a five-byte ASCII tail puts the cut inside a character,
    // and it has to walk forward to the next boundary.
    let long = format!("{}TAILS", "é".repeat(MAX_PAYLOAD_TEXT_BYTES));
    let (bounded, cut) = bound_text(&long);
    assert!(cut);
    assert!(
        bounded.len() < MAX_PAYLOAD_TEXT_BYTES,
        "the cut did not move to a boundary"
    );
    assert!(bounded.ends_with("TAILS"));
    assert!(bounded.chars().all(|c| c == 'é' || c.is_ascii_uppercase()));

    // And an even offset needs no walk, so the whole bound is used.
    let aligned = format!("{}TAIL", "é".repeat(MAX_PAYLOAD_TEXT_BYTES));
    let (bounded, cut) = bound_text(&aligned);
    assert!(cut);
    assert_eq!(bounded.len(), MAX_PAYLOAD_TEXT_BYTES);
}

/// A head is bounded from the other end, on the same terms.
#[test]
fn a_head_keeps_the_beginning_and_never_splits_a_character() {
    let (short, cut) = bound_head("brief");
    assert_eq!((short.as_str(), cut), ("brief", false));
    let long = format!("HEADS{}", "é".repeat(MAX_PAYLOAD_TEXT_BYTES));
    let (bounded, cut) = bound_head(&long);
    assert!(cut);
    assert_eq!(bounded.len(), MAX_PAYLOAD_TEXT_BYTES - 1);
    assert!(bounded.starts_with("HEADSé"));
}

/// A tool summary is bounded in characters and collapsed to one line, so a
/// multi-line command cannot break the rendering it lands in.
#[test]
fn an_activity_detail_is_collapsed_and_bounded_in_characters() {
    let (detail, cut) = bound_detail("just   check\n  --all");
    assert_eq!((detail.as_str(), cut), ("just check --all", false));

    let (detail, cut) = bound_detail(&"é".repeat(MAX_ACTIVITY_DETAIL_CHARS + 10));
    assert!(cut);
    assert_eq!(detail.chars().count(), MAX_ACTIVITY_DETAIL_CHARS);
}

/// Every kind onejudge classifies a provider failure as has a cause of its own,
/// and each keeps onejudge's own spelling.
#[test]
fn every_provider_error_kind_maps_to_a_cause_with_the_same_name() {
    for name in [
        "auth",
        "rate_limit",
        "model_not_found",
        "quota",
        "overloaded",
        "timeout",
        "cancelled",
        "spawn",
        "protocol",
        "other",
    ] {
        let kind = onejudge::ProviderErrorKind::classify(name);
        assert_eq!(kind.as_str(), name, "onejudge renamed {name:?}");
        assert_eq!(Cause::classify(name).as_str(), name);
    }
    // The three causes that exist outside that taxonomy.
    assert_eq!(Cause::from(Disposition::Exited), Cause::Exited);
    assert_eq!(Cause::from(Disposition::Signaled), Cause::Signaled);
    assert_eq!(Cause::Unclassified.as_str(), "unclassified");
    // oneharness's own name for an overload, and a label nobody classifies.
    assert_eq!(Cause::classify("server_overloaded"), Cause::Overloaded);
    assert_eq!(Cause::classify("something else"), Cause::Other);
}

/// Every kind, for a filter test that must not miss one.
const ALL_KINDS: &[EventKind] = &[
    EventKind::GraphStarted,
    EventKind::MemberStarted,
    EventKind::TurnStarted,
    EventKind::TurnActivity,
    EventKind::TurnMessage,
    EventKind::TurnCompleted,
    EventKind::TurnInterrupted,
    EventKind::MemberHeartbeat,
    EventKind::FallbackAdvanced,
    EventKind::OneharnessSession,
    EventKind::MemberDied,
    EventKind::CronFired,
    EventKind::CronReset,
    EventKind::MemberSettled,
    EventKind::GraphSettled,
];

/// Every kind spells itself the way its name does in kebab case, which is what a
/// glob is matched against.
#[test]
fn every_event_kind_spells_itself_the_way_the_wire_does() {
    for kind in ALL_KINDS {
        let mut wire = String::new();
        for character in format!("{kind:?}").chars() {
            if character.is_ascii_uppercase() && !wire.is_empty() {
                wire.push('-');
            }
            wire.push(character.to_ascii_lowercase());
        }
        assert_eq!(kind.as_str(), wire, "{kind:?} spells itself two ways");
    }
}

/// The filter every run has until one is named: every kind passes, and the
/// grammar's own empty lists mean the same thing.
#[test]
fn a_filter_naming_nothing_admits_everything() {
    let empty = EventFilter::default();
    let spelled = EventFilter {
        included: vec![],
        excluded: vec![],
    };
    assert_eq!(spelled, empty);
    for kind in ALL_KINDS {
        assert!(empty.allows(Source::Agentgraph, kind.as_str(), &Labels::default()));
    }
}

/// Inclusion names what passes, exclusion names what does not, and a match in the
/// second wins over anything the first said.
#[test]
fn exclude_beats_include_and_an_empty_include_admits_everything() {
    let kinds = |filter: &EventFilter| -> Vec<&str> {
        ALL_KINDS
            .iter()
            .map(|kind| kind.as_str())
            .filter(|kind| filter.allows(Source::Agentgraph, kind, &Labels::default()))
            .collect()
    };
    let matcher = |kind: &str| Matcher {
        kind: Some(kind.to_string()),
        ..Matcher::default()
    };

    let include_only = EventFilter {
        included: vec![matcher("graph-*")],
        excluded: Vec::new(),
    };
    assert_eq!(kinds(&include_only), vec!["graph-started", "graph-settled"]);

    let exclude_only = EventFilter {
        included: Vec::new(),
        excluded: vec![matcher("turn-*"), matcher("member-heartbeat")],
    };
    assert!(!kinds(&exclude_only)
        .iter()
        .any(|kind| kind.starts_with("turn-") || *kind == "member-heartbeat"));
    assert!(kinds(&exclude_only).contains(&"member-started"));

    // The precedence: a matcher on both lists is rejected, and the rest of a broad
    // inclusion survives.
    let both = EventFilter {
        included: vec![matcher("turn-*")],
        excluded: vec![matcher("turn-activity")],
    };
    assert_eq!(
        kinds(&both),
        vec![
            "turn-started",
            "turn-message",
            "turn-completed",
            "turn-interrupted"
        ]
    );
}

/// A glob spans the wire strings it names and nothing else.
#[test]
fn a_kind_glob_spans_the_wire_strings_it_names() {
    for (pattern, wanted) in [
        ("turn-*", vec!["turn-started", "turn-activity"]),
        ("*", vec!["turn-started", "graph-settled", ""]),
        ("*-started", vec!["turn-started", "member-started"]),
        ("member-*ed", vec!["member-started", "member-settled"]),
        ("turn-activity", vec!["turn-activity"]),
    ] {
        for kind in wanted {
            assert!(glob(pattern, kind), "{pattern:?} should match {kind:?}");
        }
    }
    for (pattern, refused) in [
        ("turn-*", vec!["member-started", "turn", "a-turn-started"]),
        ("*-started", vec!["started-turn", "turn-startedly"]),
        ("turn-activity", vec!["turn-activit", "turn-activityy"]),
        // A glob that runs out of pattern before it runs out of text.
        ("*-fired", vec!["cron-fired-again"]),
        ("", vec!["cron-fired"]),
    ] {
        for kind in refused {
            assert!(
                !glob(pattern, kind),
                "{pattern:?} should not match {kind:?}"
            );
        }
    }
    // Backtracking: the first run `*` stands for is too short, and it has to give
    // characters back until the tail lines up.
    assert!(glob("*-c", "a-b-c"));
    assert!(glob("", ""));
}

/// Every field a matcher names must hold, and a label the envelope never stamped is
/// not one a matcher can name its way into.
#[test]
fn a_matcher_conjoins_its_fields_and_never_matches_a_label_that_was_not_stamped() {
    let worker = Labels {
        run_id: Some("R".into()),
        member: Some("worker".into()),
        persona: Some("engineer".into()),
        ..Labels::default()
    };
    let filter = |matcher: Matcher| EventFilter {
        included: vec![matcher],
        excluded: Vec::new(),
    };

    let both = filter(Matcher {
        member: Some("worker".into()),
        persona: Some("engineer".into()),
        ..Matcher::default()
    });
    assert!(both.allows(Source::Agentgraph, "turn-started", &worker));
    // One field of the pair wrong is the whole matcher wrong.
    let mismatched = filter(Matcher {
        member: Some("worker".into()),
        persona: Some("critic".into()),
        ..Matcher::default()
    });
    assert!(!mismatched.allows(Source::Agentgraph, "turn-started", &worker));
    // The graph's own events carry no member, and a matcher naming one does not
    // reach them.
    assert!(!both.allows(Source::Agentgraph, "graph-started", &Labels::default()));
    // Nor does a matcher reach a node or step nothing stamps.
    let by_node = filter(Matcher {
        node: Some("service".into()),
        ..Matcher::default()
    });
    assert!(!by_node.allows(Source::Agentgraph, "turn-started", &worker));
    assert!(by_node.allows(
        Source::Agentgraph,
        "turn-started",
        &Labels {
            node: Some("service".into()),
            step: Some("implement".into()),
            ..Labels::default()
        }
    ));
    // A reserved key an operator stamped by hand lands among the extras and reaches
    // the wire under that name, so a matcher naming it sees it.
    let by_hand = Labels {
        extra: vec![("node".to_string(), text("service"))],
        ..worker.copy()
    };
    assert!(by_node.allows(Source::Agentgraph, "turn-started", &by_hand));
    // But only a string is a label value: a number under that key is not one this
    // grammar can be equal to.
    let numeric = Labels {
        extra: vec![("node".to_string(), LabelValue::Other("7".to_string()))],
        ..worker.copy()
    };
    assert!(!by_node.allows(Source::Agentgraph, "turn-started", &numeric));

    // And `source` is exact equality, not a family a sibling falls into.
    let by_source = filter(Matcher {
        source: Some(Source::Vcs),
        ..Matcher::default()
    });
    assert!(by_source.allows(Source::Vcs, "turn-started", &worker));
    assert!(!by_source.allows(Source::Agentgraph, "turn-started", &worker));
}

/// A relayed sibling's kind is matched as the wire string it arrived as.
#[test]
fn a_relayed_siblings_kind_is_matched_as_a_wire_string() {
    let filter = EventFilter {
        included: vec![Matcher {
            source: Some(Source::Vcs),
            kind: Some("commit-*".to_string()),
            ..Matcher::default()
        }],
        excluded: Vec::new(),
    };
    filter.validate().expect("a kind this crate lacks is legal");

    let relayed = Labels {
        run_id: Some("R".into()),
        member: Some("worker".into()),
        ..Labels::default()
    };
    assert!(filter.allows(Source::Vcs, "commit-created", &relayed));
    assert!(filter.allows(Source::Vcs, "commit-amended", &relayed));
    // The same kind from another library is another event.
    assert!(!filter.allows(Source::Pipeline, "commit-created", &relayed));
    // And this crate's own kinds are outside a filter that named none of them.
    for kind in ALL_KINDS {
        assert!(!filter.allows(Source::Agentgraph, kind.as_str(), &relayed));
    }
}

/// A matcher that could match nothing — or everything — is refused, naming which
/// list it is in, where, and what it says.
#[test]
fn a_matcher_that_names_nothing_usable_is_refused_by_name() {
    let refused = |included: Vec<Matcher>, excluded: Vec<Matcher>| -> String {
        EventFilter { included, excluded }
            .validate()
            .expect_err("the filter is not usable")
    };
    let kind = |kind: &str| Matcher {
        kind: Some(kind.to_string()),
        ..Matcher::default()
    };

    let empty = refused(vec![], vec![kind("turn-*"), Matcher::default()]);
    assert!(empty.contains("exclude[1] {}"), "{empty}");
    assert!(empty.contains("matches every event"), "{empty}");

    let blank = refused(
        vec![Matcher {
            member: Some("  ".to_string()),
            ..Matcher::default()
        }],
        vec![],
    );
    assert!(blank.contains(r#"include[0] {"member":"  "}"#), "{blank}");
    assert!(blank.contains("`member` is empty"), "{blank}");

    let no_kind = refused(
        vec![
            Matcher {
                source: Some(Source::Vcs),
                ..Matcher::default()
            },
            kind(""),
        ],
        vec![],
    );
    assert!(no_kind.contains(r#"include[1] {"kind":""}"#), "{no_kind}");
    assert!(no_kind.contains("`kind` is empty"), "{no_kind}");

    // A matcher naming one field is enough, whichever field it is.
    let source = Matcher {
        source: Some(Source::Agentgraph),
        ..Matcher::default()
    };
    let run_id = Matcher {
        run_id: Some("R".to_string()),
        ..Matcher::default()
    };
    let step = Matcher {
        step: Some("implement".to_string()),
        ..Matcher::default()
    };
    for (included, excluded) in [
        (vec![source], vec![]),
        (vec![kind("*")], vec![]),
        (vec![], vec![run_id]),
        (vec![], vec![step]),
    ] {
        EventFilter { included, excluded }
            .validate()
            .unwrap_or_else(|why| panic!("{why}"));
    }
}

/// What a matcher says is JSON a reader can hold against the document.
#[test]
fn a_matcher_is_written_as_json() {
    let matcher = Matcher {
        source: Some(Source::Vcs),
        kind: Some("a\"b\\c\n\u{1}é".to_string()),
        ..Matcher::default()
    };
    let json: serde_json::Value = serde_json::from_str(&matcher.write()).expect("json");
    assert_eq!(json["source"].as_str(), Some("vcs"));
    assert_eq!(json["kind"].as_str(), Some("a\"b\\c\n\u{1}é"));
}

/// An emitter writes only what its filter admits, numbers only what it wrote, and
/// hands every envelope back to the run either way.
#[test]
fn a_filter_decides_what_is_written_without_deciding_what_the_run_sees() {
    let mut sequence = Sequence::default();
    let emitter = Emitter::new("run-1".to_string()).with_filter(EventFilter {
        included: Vec::new(),
        excluded: vec![Matcher {
            kind: Some("turn-*".to_string()),
            ..Matcher::default()
        }],
    });
    // A derived emitter inherits it: one run is one merged stream.
    let member = emitter.with_labels(Labels {
        member: Some("worker".into()),
        ..Labels::default()
    });

    let first = emitter.emit(&mut sequence, EventKind::GraphStarted, ());
    let suppressed = member.emit(&mut sequence, EventKind::TurnActivity, ());
    assert!(!suppressed.admitted);
    let suppressed = suppressed.envelope;
    let second = member.emit(&mut sequence, EventKind::MemberSettled, ());
    let third = emitter.emit(&mut sequence, EventKind::GraphSettled, ());

    let written = written(vec![first, second, third]);
    assert_eq!(
        written.iter().map(|e| e.kind).collect::<Vec<_>>(),
        vec![
            EventKind::GraphStarted,
            EventKind::MemberSettled,
            EventKind::GraphSettled
        ]
    );
    assert_eq!(
        written.iter().map(|e| e.seq).collect::<Vec<_>>(),
        vec![0, 1, 2]
    );
    // The suppressed envelope still came back, fully formed.
    assert_eq!(suppressed.kind, EventKind::TurnActivity);
    assert_eq!(suppressed.labels.member.as_deref(), Some("worker"));
    assert_eq!(suppressed.v, ENVELOPE_VERSION);
    assert_eq!(suppressed.seq, 1);
}

/// Exactly the five kinds that name a turn carry a session, whatever the emitter
/// was handed — including a `session` an operator stamped by hand.
#[test]
fn only_the_kinds_that_name_a_turn_carry_a_session() {
    let mut sequence = Sequence::default();
    let member = Emitter::new("node-scope-1".to_string()).with_labels(Labels {
        member: Some("worker".into()),
        // The operator's own stamp, reaching every envelope of the run.
        extra: vec![(SESSION_LABEL.to_string(), text("theirs"))],
        ..Labels::default()
    });
    let emitted: Vec<Emitted<()>> = ALL_KINDS
        .iter()
        .map(|kind| member.emit(&mut sequence, *kind, ()))
        .collect();

    let a_turn = [
        EventKind::TurnStarted,
        EventKind::TurnActivity,
        EventKind::TurnMessage,
        EventKind::TurnCompleted,
        EventKind::TurnInterrupted,
    ];
    for envelope in written(emitted) {
        let session = extra(&envelope.labels, SESSION_LABEL);
        if a_turn.contains(&envelope.kind) {
            assert_eq!(
                session.as_deref(),
                Some("node-scope-1.worker"),
                "{:?} does not name its conversation",
                envelope.kind
            );
        } else {
            assert_eq!(session, None, "{:?} names a conversation", envelope.kind);
        }
    }

    // The graph's own emitter names no member, so it names no conversation even on
    // a kind that would carry one.
    let graph = Emitter::new("node-scope-1".to_string());
    let envelope = graph
        .emit(&mut Sequence::default(), EventKind::TurnStarted, ())
        .envelope;
    assert_eq!(extra(&envelope.labels, SESSION_LABEL), None);
}

/// A session is the stream and the member joined, sanitised to what the consumer
/// accepts — bounded, non-empty, and never opening with a `.`.
#[test]
fn a_session_is_the_stream_and_the_member_under_the_consumers_rule() {
    assert_eq!(
        session_label("node-scope-1786925518098-3163646", "worker").as_deref(),
        Some("node-scope-1786925518098-3163646.worker")
    );
    // Anything outside the set becomes `-` rather than vanishing: two members whose
    // ids differ only there stay two conversations.
    assert_eq!(
        session_label("run 1", "wörker/two").as_deref(),
        Some("run-1.w-rker-two")
    );
    assert_ne!(
        session_label("s", "a/b"),
        session_label("s", "ab"),
        "a dropped character collided two members into one conversation"
    );

    let long = session_label(&"s".repeat(200), "worker").expect("a session");
    assert_eq!(long.chars().count(), MAX_SESSION_CHARS);

    // A leading `.` is the one character the consumer refuses to open with, and an
    // id that is nothing else names no conversation at all.
    assert_eq!(session_label("", "worker").as_deref(), Some("worker"));
    assert_eq!(session_label("..", ""), None);
    assert_eq!(session_label("", ""), None);
}

/// A pair the bound cannot hold keeps **both** ids, and stays one conversation per
/// member.
#[test]
fn a_session_the_bound_cannot_hold_still_tells_two_members_apart() {
    let stream = format!(
        "{}-1786925518098-3163646",
        "supervised-implementation-of-the-quarterly-reporting-service".repeat(3)
    );
    assert!(stream.len() > MAX_SESSION_CHARS, "{stream}");

    // Each session, split back into what it kept of the two ids and the digest it
    // ends with.
    let parts = |session: &str| -> (String, String, String) {
        let (kept, digest) = session
            .rsplit_once('-')
            .expect("a shortened session ends with a digest");
        let (from_stream, from_member) = kept
            .rsplit_once('.')
            .expect("a shortened session still joins a stream and a member");
        (
            from_stream.to_string(),
            from_member.to_string(),
            digest.to_string(),
        )
    };

    let worker = session_label(&stream, "worker").expect("a session");
    let critic = session_label(&stream, "critic").expect("a session");
    assert_ne!(
        worker, critic,
        "two members of one over-long run share one conversation"
    );
    for session in [&worker, &critic] {
        assert_eq!(session.chars().count(), MAX_SESSION_CHARS, "{session}");
        assert!(
            session
                .chars()
                .all(|character| character.is_ascii_alphanumeric()
                    || matches!(character, '-' | '_' | '.')),
            "{session} is not an identifier the consumer accepts"
        );
        let (from_stream, from_member, digest) = parts(session);
        // The end of the run id, which is the part that tells this run from the
        // next one, and the member whole.
        assert!(stream.ends_with(&from_stream), "{session}");
        assert!(
            from_stream.contains("-1786925518098-3163646"),
            "the conversation no longer names the run it belongs to: {session}"
        );
        assert!(
            digest.len() == SESSION_DIGEST_CHARS
                && digest.chars().all(|it| it.is_ascii_hexdigit()),
            "{session}"
        );
        assert!(session.contains(&format!(".{from_member}-")), "{session}");
    }
    assert_eq!(parts(&worker).1, "worker");
    assert_eq!(parts(&critic).1, "critic");

    // Two streams that differ only in what was cut away are still two
    // conversations, because the digest is over the whole pair.
    assert_ne!(
        session_label(&format!("a{stream}"), "worker"),
        session_label(&format!("b{stream}"), "worker"),
        "a run distinguished only by what was cut away collided with another"
    );

    // Neither id can crowd the other out: both over-long, both still named.
    let crowded = session_label(&stream, &"m".repeat(200)).expect("a session");
    let (from_stream, from_member, _) = parts(&crowded);
    assert_eq!(crowded.chars().count(), MAX_SESSION_CHARS, "{crowded}");
    assert!(stream.ends_with(&from_stream), "{crowded}");
    assert!(
        !from_stream.is_empty() && from_member.chars().all(|it| it == 'm'),
        "{crowded}"
    );
    assert!(
        from_member.len().abs_diff(from_stream.len()) <= 1,
        "one over-long id took the other's share: {crowded}"
    );
}

/// A sink that is gone.
struct Broken;

impl std::io::Write for Broken {
    fn write(&mut self, _bytes: &[u8]) -> std::io::Result<usize> {
        Err(std::io::Error::other("gone"))
    }

    fn flush(&mut self) -> std::io::Result<()> {
        Err(std::io::Error::other("gone"))
    }
}

/// An emitter whose sink is gone still numbers and returns its events: the stream is
/// a view, and the run does not fail because nobody is reading.
#[test]
fn a_broken_sink_does_not_stop_the_run() {
    let mut sink = Broken;
    let mut sequence = Sequence::default();
    let emitter = Emitter::new("s".to_string());
    let first = emitter.emit(&mut sequence, EventKind::GraphStarted, ());
    assert_eq!(first.envelope.seq, 0);
    let kind = first.envelope.kind.as_str();
    assert!(std::io::Write::write_all(&mut sink, kind.as_bytes()).is_err());
    assert!(std::io::Write::flush(&mut sink).is_err());
    let second = emitter.emit(&mut sequence, EventKind::GraphSettled, ());
    assert_eq!(second.envelope.seq, 1);
    assert!(format!("{sequence:?}").contains("next: 2"));
}

/// Two members of one run have two conversations, on every stream.
#[test]
fn two_members_of_one_run_have_two_sessions() {
    for stream in ["", "..", "run-1", "a.b", &"s".repeat(72), &"s".repeat(73), &"s".repeat(300)] {
        let names = ["w", "worker", "worker-2", &"w".repeat(55), &"w".repeat(38)];
        for (at, one) in names.iter().enumerate() {
            for other in names.iter().skip(at + 1) {
                let (left, right) = (session_label(stream, one), session_label(stream, other));
                assert!(left.is_some() && right.is_some(), "{stream:?}");
                assert_ne!(left, right, "{stream:?}: {one} and {other}");
            }
        }
    }
}
