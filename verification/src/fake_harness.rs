//! A stand-in for a paid harness program, steered by its prompt.
//!
//! It is spawned where a harness would be and speaks one wire shape: a line of JSON
//! for each event, flushed as it happens. Every steering sentinel carries the
//! [`MARK`] prefix, because a prompt is the whole rendered system prompt and a bare
//! word matches prose nobody meant it to.

use vstd::prelude::*;
use vstd::string::StringExecFns;

use crate::anchor::{components, rooted, take_components};
use crate::json::{
    json_bool, json_member, json_object, json_string, write_bool, write_member, write_object,
    write_string_member,
};
use crate::keyed::{ordered, put, value_at};
use crate::search::{contains, find_from, first_at, holds};
use crate::task::{begins, holds_at};
use crate::text::{
    characters, contains_text, is_white_space, quote, quoted, same, signed_decimal, spelled,
    text_of, texts_of, white_space, write_signed,
};

verus! {

/// The prefix every steering sentinel carries.
pub const MARK: &'static str = "fake:";

/// The exit code a refusing subscription leaves behind.
pub const REFUSAL_EXIT: i32 = 1;

/// The ways a turn can be refused.
#[derive(Debug, Clone, Copy, PartialEq, Eq, Structural)]
pub enum Refusal {
    /// An unauthenticated identity, which fails before the turn.
    Auth,
    /// A subscription out of quota, which answers having spent nothing.
    Quota,
    /// The same shape after billed work, which a chain does not step past.
    RateLimit,
}

impl Refusal {
    /// The refusal a value asks for: none at all for an empty one, and nothing for
    /// one that asks for no refusal there is.
    pub open spec fn asked(requested: Seq<char>) -> Option<Option<Refusal>> {
        if requested == ""@ {
            Some(None)
        } else if requested == "auth"@ {
            Some(Some(Refusal::Auth))
        } else if requested == "quota"@ {
            Some(Some(Refusal::Quota))
        } else if requested == "rate_limit"@ {
            Some(Some(Refusal::RateLimit))
        } else {
            None
        }
    }

    /// The refusal a value asks for.
    pub fn parse(requested: &str) -> (refusal: Option<Option<Refusal>>)
        ensures
            refusal == Refusal::asked(requested@),
    {
        if same(requested, "") {
            Some(None)
        } else if same(requested, "auth") {
            Some(Some(Refusal::Auth))
        } else if same(requested, "quota") {
            Some(Some(Refusal::Quota))
        } else if same(requested, "rate_limit") {
            Some(Some(Refusal::RateLimit))
        } else {
            None
        }
    }
}

// ---- The arguments ----
/// One flag's value: what follows the first place it stands, when anything does.
pub open spec fn flag_of(argv: Seq<String>, name: Seq<char>) -> Option<Seq<char>>
    decreases argv.len(),
{
    if argv.len() == 0 {
        None
    } else if argv[0]@ == name {
        if argv.len() > 1 {
            Some(argv[1]@)
        } else {
            None
        }
    } else {
        flag_of(argv.drop_first(), name)
    }
}

/// One flag's value.
pub fn flag(argv: &Vec<String>, name: &str) -> (value: Option<String>)
    ensures
        text_of(value) == flag_of(argv@, name@),
{
    let mut at: usize = 0;
    assert(argv@.skip(0) =~= argv@);
    while at < argv.len()
        invariant
            at <= argv@.len(),
            flag_of(argv@, name@) == flag_of(argv@.skip(at as int), name@),
        decreases argv@.len() - at,
    {
        assert(argv@.skip(at as int)[0] == argv@[at as int]);
        if same(argv[at].as_str(), name) {
            if at + 1 < argv.len() {
                assert(argv@.skip(at as int)[1] == argv@[at + 1]);
                return Some(argv[at + 1].clone());
            }
            return None;
        }
        assert(argv@.skip(at as int).drop_first() =~= argv@.skip(at + 1));
        at = at + 1;
    }
    None
}

/// The first of two flags that has a value, or nothing said.
pub open spec fn either_flag(argv: Seq<String>, first: Seq<char>, second: Seq<char>) -> Seq<char> {
    match flag_of(argv, first) {
        Some(value) => value,
        None => match flag_of(argv, second) {
            Some(value) => value,
            None => seq![],
        },
    }
}

fn take_either(argv: &Vec<String>, first: &str, second: &str) -> (value: String)
    ensures
        value@ == either_flag(argv@, first@, second@),
{
    match flag(argv, first) {
        Some(value) => value,
        None => match flag(argv, second) {
            Some(value) => value,
            None => String::new(),
        },
    }
}

/// The whole prompt a side was given: the system half, and then the task.
pub open spec fn prompt_of(argv: Seq<String>) -> Seq<char> {
    either_flag(argv, "--append-system-prompt"@, "--system"@) + "\n"@ + either_flag(
        argv,
        "-p"@,
        "--prompt"@,
    )
}

/// The whole prompt a side was given.
pub fn prompt(argv: &Vec<String>) -> (prompt: String)
    ensures
        prompt@ == prompt_of(argv@),
{
    let mut prompt = take_either(argv, "--append-system-prompt", "--system");
    prompt.append("\n");
    prompt.append(take_either(argv, "-p", "--prompt").as_str());
    prompt
}

// ---- Sentinels ----
/// A text up to its first white space.
pub open spec fn first_word(text: Seq<char>) -> Seq<char>
    decreases text.len(),
{
    if text.len() == 0 || white_space(text[0]) {
        seq![]
    } else {
        seq![text[0]] + first_word(text.drop_first())
    }
}

/// What a sentinel says: the rest of its word.
pub open spec fn sentinel_of(prompt: Seq<char>, key: Seq<char>) -> Option<Seq<char>> {
    let at = first_at(prompt, key);
    if at < 0 {
        None
    } else {
        Some(first_word(prompt.skip(at + key.len())))
    }
}

/// What a sentinel says: what follows it in the prompt, up to the next white space.
pub fn sentinel(prompt: &str, key: &str) -> (value: Option<String>)
    ensures
        text_of(value) == sentinel_of(prompt@, key@),
{
    let all = characters(prompt);
    let wanted = characters(key);
    assert(all@.skip(0) =~= all@);
    let total: usize = all.len();
    match find_from(&all, 0, &wanted) {
        None => None,
        Some(at) => {
            let from: usize = at + wanted.len();
            let mut end: usize = from;
            let ghost rest = all@.skip(from as int);
            assert(rest.take(0) + first_word(rest.skip(0)) =~= first_word(rest)) by {
                assert(rest.skip(0) =~= rest);
            }
            while end < total && !is_white_space(all[end])
                invariant
                    from <= end <= total,
                    total == all@.len(),
                    rest == all@.skip(from as int),
                    first_word(rest) == rest.take(end - from) + first_word(rest.skip(end - from)),
                decreases total - end,
            {
                let ghost here = rest.skip(end - from);
                assert(here[0] == all@[end as int]);
                assert(here.drop_first() =~= rest.skip(end - from + 1));
                assert(rest.take(end - from + 1) =~= rest.take(end - from).push(here[0]));
                assert(rest.take(end - from) + first_word(here) =~= rest.take(end - from + 1)
                    + first_word(rest.skip(end - from + 1)));
                end = end + 1;
            }
            proof {
                let here = rest.skip(end - from);
                if end < total {
                    assert(here[0] == all@[end as int]);
                }
                assert(first_word(here) =~= seq![]);
            }
            let value = spelled(&all, from, end);
            assert(value@ =~= rest.take(end - from));
            assert(value@ =~= first_word(rest));
            Some(value)
        },
    }
}

/// What a sentinel that names a path comes to.
#[derive(Debug, PartialEq, Eq)]
pub enum Named {
    /// It is not in the prompt.
    Nothing,
    /// A path to act on.
    Usable(String),
    /// A path that is not one to act on, and what is said of it.
    Unusable(String),
}

/// Whether a path is one to act on: from the root, without a climb, and in a
/// directory that is there.
pub open spec fn usable(path: Seq<char>, parent_is_dir: bool) -> bool {
    &&& rooted(path)
    &&& !components(path).contains(".."@)
    &&& parent_is_dir
}

/// The key a sentinel is written with.
pub open spec fn keyed_with(key: Seq<char>) -> Seq<char> {
    MARK@ + key + "="@
}

/// The path a sentinel names, as it is written.
pub fn named_path(prompt: &str, key: &str) -> (path: Option<String>)
    ensures
        text_of(path) == sentinel_of(prompt@, keyed_with(key@)),
{
    let mut spelling = String::from_str(MARK);
    spelling.append(key);
    spelling.append("=");
    sentinel(prompt, spelling.as_str())
}

/// Whether `named` is what a sentinel that names a path comes to.
pub open spec fn names(
    named: Named,
    key: Seq<char>,
    path: Option<Seq<char>>,
    parent_is_dir: bool,
) -> bool {
    match path {
        None => named is Nothing,
        Some(path) => if usable(path, parent_is_dir) {
            named matches Named::Usable(found) && found@ == path
        } else {
            named matches Named::Unusable(why) && why@ == "fake-harness: fake:"@ + key
                + " must name an absolute path in an existing directory, got "@ + quoted(path)
        },
    }
}

/// The path a sentinel names, once it is one to act on; `parent_is_dir` is whether
/// the directory it is in is there.
///
/// Every path here arrives inside a prompt, so all of them are checked the same way
/// whether they are written to or waited on.
pub fn sentinel_path(prompt: &str, key: &str, parent_is_dir: bool) -> (named: Named)
    ensures
        names(named, key@, sentinel_of(prompt@, keyed_with(key@)), parent_is_dir),
{
    let path = match named_path(prompt, key) {
        Some(path) => path,
        None => return Named::Nothing,
    };
    let from_root = crate::anchor::names_its_own_root(path.as_str());
    let parts = take_components(path.as_str());
    let climbs = contains_text(&parts, "..");
    proof {
        let all = texts_of(parts@);
        if climbs {
            let i = choose|i: int| 0 <= i < parts@.len() && (#[trigger] parts@[i])@ == ".."@;
            assert(all[i] == ".."@);
        }
        if all.contains(".."@) {
            let i = choose|i: int| 0 <= i < all.len() && all[i] == ".."@;
            assert(parts@[i]@ == ".."@);
        }
    }
    if from_root && !climbs && parent_is_dir {
        return Named::Usable(path);
    }
    let mut why = String::from_str("fake-harness: fake:");
    why.append(key);
    why.append(" must name an absolute path in an existing directory, got ");
    why.append(quote(path.as_str()).as_str());
    Named::Unusable(why)
}

/// A text with each newline written as a backslash and an `n`.
pub open spec fn on_one_line(text: Seq<char>) -> Seq<char>
    decreases text.len(),
{
    if text.len() == 0 {
        seq![]
    } else if text.last() == '\n' {
        on_one_line(text.drop_last()).push('\\').push('n')
    } else {
        on_one_line(text.drop_last()).push(text.last())
    }
}

/// The line that is appended where a sentinel asks for one.
pub fn recorded(line: &str) -> (text: String)
    ensures
        text@ == on_one_line(line@),
{
    let all = characters(line);
    let mut text = String::new();
    let mut at: usize = 0;
    assert(all@.take(0) =~= seq![]);
    while at < all.len()
        invariant
            at <= all@.len(),
            text@ == on_one_line(all@.take(at as int)),
        decreases all@.len() - at,
    {
        assert(all@.take(at + 1).drop_last() =~= all@.take(at as int));
        if all[at] == '\n' {
            text.push('\\');
            text.push('n');
        } else {
            text.push(all[at]);
        }
        at = at + 1;
    }
    assert(all@.take(at as int) =~= all@);
    text
}

// ---- What a side answers ----
/// What a side answers, decided by which side is being asked: each framing of a
/// prompt says which one it is.
pub open spec fn answer_of(prompt: Seq<char>) -> Seq<char> {
    let failing = holds(prompt, "should-fail"@);
    if holds(prompt, "completion supervisor"@) {
        if failing {
            json_object(
                seq![
                    json_member("completion"@, json_bool(false)),
                    json_member("message"@, json_string("verify it before you call it done"@)),
                    json_member("reason"@, json_string("fake supervisor requires another turn"@)),
                ],
            )
        } else {
            json_object(
                seq![
                    json_member("completion"@, json_bool(true)),
                    json_member("reason"@, json_string("fake supervisor verified completion"@)),
                ],
            )
        }
    } else if holds(prompt, "role-playing the USER"@) {
        "verify it before you call it done"@
    } else if holds(prompt, "Criterion:"@) {
        json_object(
            seq![
                json_member("value"@, json_bool(!failing)),
                json_member("reason"@, json_string("fake judge verdict"@)),
            ],
        )
    } else if holds(prompt, "Assessment request:"@) {
        "None"@
    } else if holds(prompt, "complete-now"@) {
        "done"@
    } else {
        "working on it"@
    }
}

/// What a side answers.
///
/// The two shapes of a supervisor's answer are not symmetrical: a completed one
/// carries no message, because there is no next turn for a message to be.
pub fn answer(prompt: &str) -> (text: String)
    ensures
        text@ == answer_of(prompt@),
{
    let failing = contains(prompt, "should-fail");
    if contains(prompt, "completion supervisor") {
        let mut members: Vec<String> = Vec::new();
        if failing {
            members.push(write_member("completion", write_bool(false)));
            members.push(write_string_member("message", "verify it before you call it done"));
            members.push(
                write_string_member("reason", "fake supervisor requires another turn"),
            );
            assert(texts_of(members@) =~= seq![
                json_member("completion"@, json_bool(false)),
                json_member("message"@, json_string("verify it before you call it done"@)),
                json_member("reason"@, json_string("fake supervisor requires another turn"@)),
            ]);
        } else {
            members.push(write_member("completion", write_bool(true)));
            members.push(write_string_member("reason", "fake supervisor verified completion"));
            assert(texts_of(members@) =~= seq![
                json_member("completion"@, json_bool(true)),
                json_member("reason"@, json_string("fake supervisor verified completion"@)),
            ]);
        }
        return write_object(&members);
    }
    if contains(prompt, "role-playing the USER") {
        return String::from_str("verify it before you call it done");
    }
    if contains(prompt, "Criterion:") {
        let mut members: Vec<String> = Vec::new();
        members.push(write_member("value", write_bool(!failing)));
        members.push(write_string_member("reason", "fake judge verdict"));
        assert(texts_of(members@) =~= seq![
            json_member("value"@, json_bool(!failing)),
            json_member("reason"@, json_string("fake judge verdict"@)),
        ]);
        return write_object(&members);
    }
    if contains(prompt, "Assessment request:") {
        return String::from_str("None");
    }
    if contains(prompt, "complete-now") {
        String::from_str("done")
    } else {
        String::from_str("working on it")
    }
}

// ---- The selection-shaped environment ----
/// Whether `text` ends with `suffix`.
pub open spec fn ends(text: Seq<char>, suffix: Seq<char>) -> bool {
    suffix.len() <= text.len() && begins(text.skip(text.len() - suffix.len()), suffix)
}

fn ends_with(text: &str, suffix: &str) -> (answer: bool)
    ensures
        answer == ends(text@, suffix@),
{
    let all = characters(text);
    let wanted = characters(suffix);
    let total: usize = all.len();
    if wanted.len() > total {
        return false;
    }
    holds_at(&all, total - wanted.len(), &wanted)
}

/// Whether a variable is one a side's choice travels in, by the shape of its name.
pub open spec fn selects(name: Seq<char>) -> bool {
    ||| ends(name, "_HARNESSES"@)
    ||| ends(name, "_MODEL"@)
    ||| ends(name, "_MODE"@)
    ||| begins(name, "ONEAGENTGRAPH_TEST_"@)
}

/// Whether a variable is one a side's choice travels in.
pub fn is_selection(name: &str) -> (answer: bool)
    ensures
        answer == selects(name@),
{
    let all = characters(name);
    let prefix = characters("ONEAGENTGRAPH_TEST_");
    assert(all@.skip(0) =~= all@);
    ends_with(name, "_HARNESSES") || ends_with(name, "_MODEL") || ends_with(name, "_MODE")
        || holds_at(&all, 0, &prefix)
}

/// The value an environment last gives a variable.
pub open spec fn latest(env: Seq<(String, String)>, name: Seq<char>) -> Option<String>
    decreases env.len(),
{
    if env.len() == 0 {
        None
    } else if env.last().0@ == name {
        Some(env.last().1)
    } else {
        latest(env.drop_last(), name)
    }
}

/// Whether `chosen` are the selection-shaped variables of an environment, in order
/// of their names.
pub open spec fn chooses(chosen: Seq<(String, String)>, env: Seq<(String, String)>) -> bool {
    &&& ordered(chosen)
    &&& forall|name: Seq<char>| #[trigger]
        value_at(chosen, name) == if selects(name) {
            latest(env, name)
        } else {
            None
        }
}

/// Named values as a JSON object of strings.
pub open spec fn strings_object(entries: Seq<(String, String)>) -> Seq<char> {
    json_object(
        entries.map_values(|entry: (String, String)| json_member(entry.0@, json_string(entry.1@))),
    )
}

/// The selection-shaped environment a side was spawned with: where a per-side
/// choice either arrived or did not.
pub fn selection_environment(env: &Vec<(String, String)>) -> (text: String)
    ensures
        exists|chosen: Seq<(String, String)>|
            #[trigger] chooses(chosen, env@) && text@ == strings_object(chosen),
{
    let mut chosen: Vec<(String, String)> = Vec::new();
    let mut at: usize = 0;
    assert(env@.take(0) =~= seq![]);
    while at < env.len()
        invariant
            at <= env@.len(),
            chooses(chosen@, env@.take(at as int)),
        decreases env@.len() - at,
    {
        assert(env@.take(at + 1).drop_last() =~= env@.take(at as int));
        let ghost was = chosen@;
        let name = env[at].0.as_str();
        if is_selection(name) {
            put(&mut chosen, env[at].0.clone(), env[at].1.clone());
        }
        assert forall|other: Seq<char>| #[trigger]
            value_at(chosen@, other) == if selects(other) {
                latest(env@.take(at + 1), other)
            } else {
                None
            } by {
            assert(value_at(was, other) == if selects(other) {
                latest(env@.take(at as int), other)
            } else {
                None
            });
        }
        at = at + 1;
    }
    assert(env@.take(at as int) =~= env@);
    let mut members: Vec<String> = Vec::new();
    let ghost all = chosen@.map_values(
        |entry: (String, String)| json_member(entry.0@, json_string(entry.1@)),
    );
    let mut next: usize = 0;
    while next < chosen.len()
        invariant
            next <= chosen@.len(),
            all == chosen@.map_values(
                |entry: (String, String)| json_member(entry.0@, json_string(entry.1@)),
            ),
            texts_of(members@) =~= all.take(next as int),
        decreases chosen@.len() - next,
    {
        let ghost held = texts_of(members@);
        let member = write_string_member(chosen[next].0.as_str(), chosen[next].1.as_str());
        assert(member@ == all[next as int]);
        members.push(member);
        assert(texts_of(members@) =~= held.push(all[next as int]));
        next = next + 1;
    }
    assert(texts_of(members@) =~= all);
    write_object(&members)
}

// ---- A turn ----
/// What a turn does.
#[derive(Debug, PartialEq, Eq)]
pub enum Turn {
    /// End at once: what is said on each stream, and the code.
    Exit {
        /// The line on standard output.
        stdout: Option<String>,
        /// The line on standard error.
        stderr: Option<String>,
        /// The exit code.
        code: i32,
    },
    /// Never answer.
    Hang,
    /// Answer with these lines, once what holds the turn is there.
    Answer(Vec<String>),
}

/// What a subscription out of quota answers: a record that reads as a success and
/// declares the rejection in its reason, having spent nothing.
pub const QUOTA_LINE: &'static str = "{\"type\":\"result\",\"subtype\":\"success\",\"terminal_reason\":\"api_error\",\"api_error_status\":429,\"result\":\"\",\"usage\":{\"input_tokens\":0,\"output_tokens\":0},\"total_cost_usd\":0.0,\"modelUsage\":{}}";

/// The same after billed work.
pub const RATE_LIMIT_LINE: &'static str = "{\"type\":\"result\",\"subtype\":\"success\",\"terminal_reason\":\"rate_limit\",\"api_error_status\":429,\"result\":\"\",\"usage\":{\"input_tokens\":900,\"output_tokens\":120},\"total_cost_usd\":0.42}";

/// The lines a turn that answers publishes.
pub open spec fn answer_lines(session: Seq<char>, prompt: Seq<char>) -> Seq<Seq<char>> {
    seq![
        "{\"type\":\"system\",\"subtype\":\"init\",\"session_id\":"@ + json_string(session) + "}"@,
        "{\"type\":\"assistant\",\"session_id\":"@ + json_string(session)
            + ",\"message\":{\"id\":\"m1\",\"type\":\"message\",\"role\":\"assistant\",\"content\":[{\"type\":\"tool_use\",\"id\":\"t1\",\"name\":\"Bash\",\"input\":{\"command\":\"just check\"}}]}}"@,
        "{\"type\":\"result\",\"subtype\":\"success\",\"is_error\":false,\"duration_ms\":5,\"num_turns\":1,\"result\":"@
            + json_string(answer_of(prompt)) + ",\"session_id\":"@ + json_string(session)
            + ",\"usage\":{\"input_tokens\":10,\"output_tokens\":5,\"cache_read_input_tokens\":4,\"cache_creation_input_tokens\":1},\"total_cost_usd\":0.002}"@,
    ]
}

/// Whether `turn` is what these steer a side to: a crash first, then a refusal,
/// then silence, and an answer otherwise. A value that cannot be read is refused
/// loudly, because a turn nobody configured passes for the wrong reason.
pub open spec fn steers(
    turn: Turn,
    crash: Option<Seq<char>>,
    refusal: Seq<char>,
    session: Seq<char>,
    prompt: Seq<char>,
) -> bool {
    if let Some(requested) = crash {
        match crate::search::integer_of(requested) {
            Some(code) if i32::MIN <= code <= i32::MAX => exits(
                turn,
                None,
                Some(
                    "fake-harness: exiting "@ + signed_decimal(code)
                        + " having published nothing"@,
                ),
                code as i32,
            ),
            _ => exits(
                turn,
                None,
                Some(
                    "fake-harness: FAKE_HARNESS_CRASH must be an exit code, got "@ + quoted(
                        requested,
                    ),
                ),
                2,
            ),
        }
    } else {
        match Refusal::asked(refusal) {
            None => exits(
                turn,
                None,
                Some(
                    "fake-harness: FAKE_HARNESS_REFUSAL must be auth, quota, or rate_limit, got "@
                        + quoted(refusal),
                ),
                2,
            ),
            Some(Some(Refusal::Auth)) => exits(
                turn,
                None,
                Some("401 Unauthorized: no credentials"@),
                REFUSAL_EXIT,
            ),
            Some(Some(Refusal::Quota)) => exits(turn, Some(QUOTA_LINE@), None, REFUSAL_EXIT),
            Some(Some(Refusal::RateLimit)) => exits(
                turn,
                Some(RATE_LIMIT_LINE@),
                None,
                REFUSAL_EXIT,
            ),
            Some(None) => if holds(prompt, "fake:hang"@) {
                turn is Hang
            } else {
                turn matches Turn::Answer(lines) && texts_of(lines@) == answer_lines(
                    session,
                    prompt,
                )
            },
        }
    }
}

/// Whether a turn ends at once, saying this.
pub open spec fn exits(
    turn: Turn,
    out: Option<Seq<char>>,
    err: Option<Seq<char>>,
    with: i32,
) -> bool {
    turn matches Turn::Exit { stdout, stderr, code } && text_of(stdout) == out && text_of(stderr)
        == err && code == with
}

fn write_lines(session: &str, prompt: &str) -> (lines: Vec<String>)
    ensures
        texts_of(lines@) == answer_lines(session@, prompt@),
{
    let named = crate::json::write_json_string(session);
    let mut first = String::from_str(
        "{\"type\":\"system\",\"subtype\":\"init\",\"session_id\":",
    );
    first.append(named.as_str());
    first.append("}");
    let mut second = String::from_str("{\"type\":\"assistant\",\"session_id\":");
    second.append(named.as_str());
    second.append(
        ",\"message\":{\"id\":\"m1\",\"type\":\"message\",\"role\":\"assistant\",\"content\":[{\"type\":\"tool_use\",\"id\":\"t1\",\"name\":\"Bash\",\"input\":{\"command\":\"just check\"}}]}}",
    );
    let mut third = String::from_str(
        "{\"type\":\"result\",\"subtype\":\"success\",\"is_error\":false,\"duration_ms\":5,\"num_turns\":1,\"result\":",
    );
    let said = answer(prompt);
    third.append(crate::json::write_json_string(said.as_str()).as_str());
    third.append(",\"session_id\":");
    third.append(named.as_str());
    third.append(
        ",\"usage\":{\"input_tokens\":10,\"output_tokens\":5,\"cache_read_input_tokens\":4,\"cache_creation_input_tokens\":1},\"total_cost_usd\":0.002}",
    );
    let mut lines: Vec<String> = Vec::new();
    lines.push(first);
    lines.push(second);
    lines.push(third);
    assert(texts_of(lines@) =~= answer_lines(session@, prompt@));
    lines
}

fn complain(text: String, code: i32) -> (turn: Turn)
    ensures
        exits(turn, None, Some(text@), code),
{
    Turn::Exit { stdout: None, stderr: Some(text), code }
}

/// What a turn does: `crash` and `refusal` are what the variables that steer it
/// hold, and `session` is the conversation it says it is.
pub fn steer(crash: Option<&str>, refusal: &str, session: &str, prompt: &str) -> (turn: Turn)
    ensures
        steers(turn, crate::anchor::seen(crash), refusal@, session@, prompt@),
{
    if let Some(requested) = crash {
        return match crate::search::read_code(requested) {
            Some(code) => {
                let mut text = String::from_str("fake-harness: exiting ");
                text.append(write_signed(code).as_str());
                text.append(" having published nothing");
                complain(text, code)
            },
            None => {
                let mut text = String::from_str(
                    "fake-harness: FAKE_HARNESS_CRASH must be an exit code, got ",
                );
                text.append(quote(requested).as_str());
                complain(text, 2)
            },
        };
    }
    match Refusal::parse(refusal) {
        None => {
            let mut text = String::from_str(
                "fake-harness: FAKE_HARNESS_REFUSAL must be auth, quota, or rate_limit, got ",
            );
            text.append(quote(refusal).as_str());
            complain(text, 2)
        },
        Some(Some(Refusal::Auth)) => complain(
            String::from_str("401 Unauthorized: no credentials"),
            REFUSAL_EXIT,
        ),
        Some(Some(Refusal::Quota)) => Turn::Exit {
            stdout: Some(String::from_str(QUOTA_LINE)),
            stderr: None,
            code: REFUSAL_EXIT,
        },
        Some(Some(Refusal::RateLimit)) => Turn::Exit {
            stdout: Some(String::from_str(RATE_LIMIT_LINE)),
            stderr: None,
            code: REFUSAL_EXIT,
        },
        Some(None) => {
            if contains(prompt, "fake:hang") {
                Turn::Hang
            } else {
                Turn::Answer(write_lines(session, prompt))
            }
        },
    }
}

} // verus!
