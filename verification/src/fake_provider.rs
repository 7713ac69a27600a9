//! A stand-in for a judge side that speaks onejudge's own protocol: one request in,
//! one response out.
//!
//! Each answer is derived from the request alone. The supervisor's release decision
//! is taken from the persona it was handed: a reported blocker ends the conversation
//! only where the persona's own "not terminal" clause does not name it.

use vstd::prelude::*;
use vstd::string::StringExecFns;

use crate::anchor::seen;
use crate::json::{
    json_bool, json_member, json_object, json_string, write_bool, write_member, write_object,
    write_string_member,
};
use crate::json_read::{json_fault, json_node, node_at, Node, NodeText};
use crate::search::{contains, holds, pieces, split};
use crate::task::{begins, holds_at};
use crate::text::{
    characters, collapse, copy_text, decimal, quote, quoted, same, separated, spelled, text_of,
    texts_of, trim, trimmed, words, write_decimal,
};

verus! {

/// The score a numeric judgement answers when the request names no usable bound.
pub const DEFAULT_MAX_SCORE: u64 = 5;

/// The marker a worker states a blocker with.
pub const BLOCKER: &'static str = "blocker:";

/// One message of a conversation, as far as an answer reads it.
#[derive(Debug, PartialEq, Eq)]
pub struct Message {
    /// Who said it.
    pub role: Option<String>,
    /// What was said, where it is text.
    pub content: Option<String>,
}

impl Message {
    /// Whether a message is one party's.
    pub open spec fn is_from(self, party: Seq<char>) -> bool {
        text_of(self.role) == Some(party)
    }

    fn from_party(&self, party: &str) -> (answer: bool)
        ensures
            answer == self.is_from(party@),
    {
        match &self.role {
            Some(role) => same(role.as_str(), party),
            None => false,
        }
    }
}

/// Where the last of the first `upto` messages from a party is, or -1.
pub open spec fn last_from(messages: Seq<Message>, party: Seq<char>, upto: nat) -> int
    decreases upto,
{
    if upto == 0 {
        -1
    } else if messages[upto - 1].is_from(party) {
        upto - 1
    } else {
        last_from(messages, party, (upto - 1) as nat)
    }
}

/// How many of the first `upto` messages are from a party.
pub open spec fn count_from(messages: Seq<Message>, party: Seq<char>, upto: nat) -> nat
    decreases upto,
{
    if upto == 0 {
        0
    } else {
        count_from(messages, party, (upto - 1) as nat) + if messages[upto - 1].is_from(party) {
            1nat
        } else {
            0
        }
    }
}

/// How many turns the agent has taken so far.
pub fn assistant_turns(messages: &Vec<Message>) -> (turns: usize)
    ensures
        turns == count_from(messages@, "assistant"@, messages@.len()),
{
    let mut turns: usize = 0;
    let mut at: usize = 0;
    while at < messages.len()
        invariant
            at <= messages@.len(),
            turns <= at,
            turns == count_from(messages@, "assistant"@, at as nat),
        decreases messages@.len() - at,
    {
        if messages[at].from_party("assistant") {
            turns = turns + 1;
        }
        at = at + 1;
    }
    turns
}

/// The task: what the first message from the user says, or nothing where there is
/// none.
pub open spec fn task_in(messages: Seq<Message>) -> Seq<char>
    decreases messages.len(),
{
    if messages.len() == 0 {
        seq![]
    } else if messages[0].is_from("user"@) {
        match messages[0].content {
            Some(text) => text@,
            None => seq![],
        }
    } else {
        task_in(messages.drop_first())
    }
}

/// The task, which is always the first user message. A conversation with none is
/// not malformed: the supervisor is asked before the first one exists.
pub fn first_user_message(messages: &Vec<Message>) -> (task: String)
    ensures
        task@ == task_in(messages@),
{
    let mut at: usize = 0;
    assert(messages@.skip(0) =~= messages@);
    while at < messages.len()
        invariant
            at <= messages@.len(),
            task_in(messages@) == task_in(messages@.skip(at as int)),
        decreases messages@.len() - at,
    {
        assert(messages@.skip(at as int)[0] == messages@[at as int]);
        if messages[at].from_party("user") {
            return match copy_text(&messages[at].content) {
                Some(text) => text,
                None => {
                    let nothing = String::new();
                    assert(nothing@ =~= seq![]);
                    nothing
                },
            };
        }
        assert(messages@.skip(at as int).drop_first() =~= messages@.skip(at + 1));
        at = at + 1;
    }
    let nothing = String::new();
    assert(nothing@ =~= seq![]);
    nothing
}

/// A text without the full stops it ends with.
pub open spec fn without_stops(text: Seq<char>) -> Seq<char>
    decreases text.len(),
{
    if text.len() > 0 && text.last() == '.' {
        without_stops(text.drop_last())
    } else {
        text
    }
}

fn drop_stops(text: &str) -> (kept: String)
    ensures
        kept@ == without_stops(text@),
{
    let all = characters(text);
    let mut end: usize = all.len();
    assert(all@.take(end as int) =~= all@);
    while end > 0 && all[end - 1] == '.'
        invariant
            all@ == text@,
            end <= all@.len(),
            without_stops(text@) == without_stops(all@.take(end as int)),
        decreases end,
    {
        assert(all@.take(end as int).drop_last() =~= all@.take(end - 1));
        end = end - 1;
    }
    let kept = spelled(&all, 0, end);
    assert(kept@ =~= all@.take(end as int));
    kept
}

/// What one line reports being blocked on.
pub open spec fn blocker_on(line: Seq<char>) -> Option<Seq<char>> {
    let said = trimmed(line);
    if begins(said, BLOCKER@) {
        Some(without_stops(trimmed(said.skip(BLOCKER@.len() as int))))
    } else {
        None
    }
}

/// What the first of the first `upto` lines that reports a blocker reports.
pub open spec fn blocker_among(lines: Seq<Seq<char>>, upto: nat) -> Option<Seq<char>>
    decreases upto,
{
    if upto == 0 {
        None
    } else {
        match blocker_among(lines, (upto - 1) as nat) {
            Some(condition) => Some(condition),
            None => blocker_on(lines[upto - 1]),
        }
    }
}

/// The condition the worker's latest turn reports itself blocked on, when it
/// reports one: the supervisor is asked after every turn, and what it decides on is
/// what the worker just said.
pub open spec fn blocker_in(messages: Seq<Message>) -> Option<Seq<char>> {
    let at = last_from(messages, "assistant"@, messages.len());
    if at < 0 {
        None
    } else {
        match messages[at].content {
            Some(text) => {
                let lines = pieces(text@, seq!['\n']);
                blocker_among(lines, lines.len())
            },
            None => None,
        }
    }
}

fn line_blocker(line: &str) -> (condition: Option<String>)
    ensures
        text_of(condition) == blocker_on(line@),
{
    let said = trim(line);
    let all = characters(said.as_str());
    let marker = characters(BLOCKER);
    assert(all@.skip(0) =~= all@);
    if !holds_at(&all, 0, &marker) {
        return None;
    }
    let rest = spelled(&all, marker.len(), all.len());
    assert(rest@ =~= all@.skip(BLOCKER@.len() as int));
    let condition = trim(rest.as_str());
    Some(drop_stops(condition.as_str()))
}

proof fn the_first_blocker_answers(lines: Seq<Seq<char>>, at: nat, upto: nat)
    requires
        at <= upto,
        blocker_among(lines, at) is Some,
    ensures
        blocker_among(lines, upto) == blocker_among(lines, at),
    decreases upto,
{
    if at < upto {
        the_first_blocker_answers(lines, at, (upto - 1) as nat);
    }
}

/// The condition the worker's latest turn reports itself blocked on.
#[verifier::loop_isolation(false)]
pub fn reported_blocker(messages: &Vec<Message>) -> (condition: Option<String>)
    ensures
        text_of(condition) == blocker_in(messages@),
{
    let mut end: usize = messages.len();
    while end > 0 && !messages[end - 1].from_party("assistant")
        invariant
            end <= messages@.len(),
            last_from(messages@, "assistant"@, messages@.len()) == last_from(
                messages@,
                "assistant"@,
                end as nat,
            ),
        decreases end,
    {
        end = end - 1;
    }
    if end == 0 {
        return None;
    }
    let text = match &messages[end - 1].content {
        Some(text) => text,
        None => return None,
    };
    proof {
        reveal_strlit("\n");
        assert("\n"@ =~= seq!['\n']);
    }
    let lines = split(text.as_str(), "\n");
    let ghost all = texts_of(lines@);
    let mut at: usize = 0;
    while at < lines.len()
        invariant
            at <= lines@.len(),
            blocker_among(all, at as nat) is None,
        decreases lines@.len() - at,
    {
        assert(all[at as int] == lines@[at as int]@);
        match line_blocker(lines[at].as_str()) {
            Some(condition) => {
                proof {
                    the_first_blocker_answers(all, (at + 1) as nat, all.len());
                }
                return Some(condition);
            },
            None => {},
        }
        at = at + 1;
    }
    None
}

/// Whether the supervisor's own persona says a blocker is one the worker could
/// retry inside this run: one of its sentences on what is not terminal names it.
pub open spec fn retries(persona: Seq<char>, blocker: Seq<char>) -> bool {
    let sentences = pieces(separated(words(persona), seq![' ']), ". "@);
    exists|i: int|
        0 <= i < sentences.len() && holds(#[trigger] sentences[i], "not terminal"@) && holds(
            sentences[i],
            blocker,
        )
}

/// Whether a persona says a blocker is one the worker could retry.
pub fn retryable(persona: &str, blocker: &str) -> (answer: bool)
    ensures
        answer == retries(persona@, blocker@),
{
    let flowing = collapse(persona);
    proof {
        reveal_strlit(". ");
    }
    let sentences = split(flowing.as_str(), ". ");
    let ghost all = texts_of(sentences@);
    let mut at: usize = 0;
    while at < sentences.len()
        invariant
            at <= sentences@.len(),
            all == texts_of(sentences@),
            all == pieces(separated(words(persona@), seq![' ']), ". "@),
            forall|i: int|
                0 <= i < at ==> !(holds(#[trigger] all[i], "not terminal"@) && holds(
                    all[i],
                    blocker@,
                )),
        decreases sentences@.len() - at,
    {
        assert(all[at as int] == sentences@[at as int]@);
        if contains(sentences[at].as_str(), "not terminal") && contains(
            sentences[at].as_str(),
            blocker,
        ) {
            return true;
        }
        at = at + 1;
    }
    false
}

/// Whether a task carries a sentinel.
pub open spec fn task_steers(task: Seq<char>, sentinel: Seq<char>) -> bool {
    holds(task, "fake:"@ + sentinel)
}

fn steers(task: &str, sentinel: &str) -> (answer: bool)
    ensures
        answer == task_steers(task@, sentinel@),
{
    let mut spelling = String::from_str("fake:");
    spelling.append(sentinel);
    contains(task, spelling.as_str())
}

/// One request, as far as an answer reads it.
#[derive(Debug, PartialEq, Eq)]
pub struct Request {
    /// The operation.
    pub op: Option<String>,
    /// The conversation, where the request carries one.
    pub messages: Option<Vec<Message>>,
    /// The supervisor's persona.
    pub persona: Option<String>,
    /// What kind of judgement is asked for.
    pub kind: Option<String>,
    /// The largest score a numeric judgement may give.
    pub max: Option<u64>,
}

/// A text, where one stands.
pub open spec fn text_at(node: NodeText) -> Option<Seq<char>> {
    match node {
        NodeText::Text(text) => Some(text),
        _ => None,
    }
}

/// The pointer to a field of one message of a request.
pub open spec fn in_message(at: nat, field: Seq<char>) -> Seq<char> {
    "/messages/"@ + decimal(at) + "/"@ + field
}

/// Whether `messages` are the first `count` of a request.
pub open spec fn messages_of(raw: Seq<char>, messages: Seq<Message>, count: nat) -> bool {
    messages.len() == count && forall|i: int|
        0 <= i < count ==> text_of((#[trigger] messages[i]).role) == text_at(
            json_node(raw, in_message(i as nat, "role"@)),
        ) && text_of(messages[i].content) == text_at(
            json_node(raw, in_message(i as nat, "content"@)),
        )
}

/// Whether `request` is what a JSON text asks: what is not of the type an answer
/// reads is as if it were not there.
pub open spec fn asks(raw: Seq<char>, request: Request) -> bool {
    &&& text_of(request.op) == text_at(json_node(raw, "/op"@))
    &&& text_of(request.persona) == text_at(json_node(raw, "/persona"@))
    &&& text_of(request.kind) == text_at(json_node(raw, "/kind"@))
    &&& request.max == match json_node(raw, "/max"@) {
        NodeText::Count(max) => Some(max),
        _ => None,
    }
    &&& match json_node(raw, "/messages"@) {
        NodeText::List(count) => request.messages matches Some(messages) && messages_of(
            raw,
            messages@,
            count,
        ),
        _ => request.messages is None,
    }
}

fn text_node(raw: &str, pointer: &str) -> (text: Result<Option<String>, String>)
    ensures
        match json_fault(raw@) {
            Some(_) => text is Err,
            None => text matches Ok(found) && text_of(found) == text_at(json_node(raw@, pointer@)),
        },
{
    match node_at(raw, pointer) {
        Ok(Node::Text(text)) => Ok(Some(text)),
        Ok(_) => Ok(None),
        Err(why) => Err(why),
    }
}

fn message_pointer(at: usize, field: &str) -> (pointer: String)
    ensures
        pointer@ == in_message(at as nat, field@),
{
    let mut pointer = String::from_str("/messages/");
    pointer.append(write_decimal(at as u64).as_str());
    pointer.append("/");
    pointer.append(field);
    pointer
}

fn read_messages(raw: &str, count: usize) -> (messages: Result<Vec<Message>, String>)
    ensures
        match json_fault(raw@) {
            Some(_) => count > 0 ==> messages is Err,
            None => messages matches Ok(found) && messages_of(raw@, found@, count as nat),
        },
{
    let mut messages: Vec<Message> = Vec::new();
    let mut at: usize = 0;
    while at < count
        invariant
            at <= count,
            json_fault(raw@) is Some ==> at == 0,
            messages_of(raw@, messages@, at as nat),
        decreases count - at,
    {
        let role = text_node(raw, message_pointer(at, "role").as_str())?;
        let content = text_node(raw, message_pointer(at, "content").as_str())?;
        messages.push(Message { role, content });
        at = at + 1;
    }
    Ok(messages)
}

fn read_places(raw: &str) -> (request: Result<Request, String>)
    ensures
        match json_fault(raw@) {
            Some(_) => request is Err,
            None => request matches Ok(found) && asks(raw@, found),
        },
{
    let op = text_node(raw, "/op")?;
    let persona = text_node(raw, "/persona")?;
    let kind = text_node(raw, "/kind")?;
    let max: Option<u64> = match node_at(raw, "/max")? {
        Node::Count(max) => Some(max),
        _ => None,
    };
    let messages = match node_at(raw, "/messages")? {
        Node::List(count) => Some(read_messages(raw, count)?),
        _ => None,
    };
    Ok(Request { op, messages, persona, kind, max })
}

/// One request, read from its text: refused where, and only where, the text is no
/// JSON.
pub fn read_request(raw: &str) -> (request: Result<Request, String>)
    ensures
        match json_fault(raw@) {
            Some(_) => request matches Err(why) && why@
                == "fake-provider: the request is not JSON"@,
            None => request matches Ok(found) && asks(raw@, found),
        },
{
    match read_places(raw) {
        Ok(request) => Ok(request),
        Err(_) => Err(String::from_str("fake-provider: the request is not JSON")),
    }
}

/// A decision not to complete, with what it asks for next where it asks for
/// anything.
pub open spec fn going_on(message: Option<Seq<char>>, reason: Seq<char>) -> Seq<char> {
    let asked = match message {
        Some(text) => seq![json_member("message"@, json_string(text))],
        None => seq![],
    };
    json_object(
        seq![json_member("completion"@, json_bool(false))] + asked + seq![
            json_member("reason"@, json_string(reason)),
        ],
    )
}

/// What a supervisor decides.
pub open spec fn supervised(messages: Seq<Message>, persona: Seq<char>) -> Seq<char> {
    match blocker_in(messages) {
        Some(blocker) => if retries(persona, blocker) {
            going_on(
                Some("run it again and keep going: "@ + blocker),
                "the blocker reported is one the worker could retry in this run"@,
            )
        } else {
            going_on(None, "terminal blocker reported: "@ + blocker)
        },
        None => if !task_steers(task_in(messages), "should-fail"@) && count_from(
            messages,
            "assistant"@,
            messages.len(),
        ) >= 1 {
            json_object(
                seq![
                    json_member("completion"@, json_bool(true)),
                    json_member("reason"@, json_string("fake supervisor verified completion"@)),
                ],
            )
        } else {
            going_on(
                Some("verify it before you call it done"@),
                "fake supervisor requires another turn"@,
            )
        },
    }
}

fn write_going_on(message: Option<&str>, reason: &str) -> (text: String)
    ensures
        text@ == going_on(seen(message), reason@),
{
    let mut members: Vec<String> = Vec::new();
    members.push(write_member("completion", write_bool(false)));
    if let Some(text) = message {
        members.push(write_string_member("message", text));
    }
    members.push(write_string_member("reason", reason));
    proof {
        let asked = match seen(message) {
            Some(text) => seq![json_member("message"@, json_string(text))],
            None => seq![],
        };
        assert(texts_of(members@) =~= seq![json_member("completion"@, json_bool(false))] + asked
            + seq![json_member("reason"@, json_string(reason@))]);
    }
    write_object(&members)
}

fn supervise(messages: &Vec<Message>, persona: &str) -> (text: String)
    ensures
        text@ == supervised(messages@, persona@),
{
    match reported_blocker(messages) {
        Some(blocker) => {
            if retryable(persona, blocker.as_str()) {
                let mut next = String::from_str("run it again and keep going: ");
                next.append(blocker.as_str());
                write_going_on(
                    Some(next.as_str()),
                    "the blocker reported is one the worker could retry in this run",
                )
            } else {
                let mut reason = String::from_str("terminal blocker reported: ");
                reason.append(blocker.as_str());
                write_going_on(None, reason.as_str())
            }
        },
        None => {
            let task = first_user_message(messages);
            if !steers(task.as_str(), "should-fail") && assistant_turns(messages) >= 1 {
                let mut members: Vec<String> = Vec::new();
                members.push(write_member("completion", write_bool(true)));
                members.push(
                    write_string_member("reason", "fake supervisor verified completion"),
                );
                assert(texts_of(members@) =~= seq![
                    json_member("completion"@, json_bool(true)),
                    json_member("reason"@, json_string("fake supervisor verified completion"@)),
                ]);
                write_object(&members)
            } else {
                write_going_on(
                    Some("verify it before you call it done"),
                    "fake supervisor requires another turn",
                )
            }
        },
    }
}

/// What a request is answered with, or what is said of one that cannot be: one
/// without a conversation, a supervisor's without a persona, and an operation there
/// is none of.
pub open spec fn response_of(request: Request) -> Result<Seq<char>, Seq<char>> {
    match request.messages {
        None => Err("fake-provider: the request has no `messages` array to answer from"@),
        Some(messages) => match text_of(request.op) {
            None => Err("fake-provider: unknown op None"@),
            Some(op) => if op == "supervisor"@ {
                match request.persona {
                    None => Err(
                        "fake-provider: the supervisor request carries no `persona` string to judge a reported blocker against"@,
                    ),
                    Some(persona) => Ok(supervised(messages@, persona@)),
                }
            } else if op == "user"@ {
                Ok(
                    json_object(
                        seq![
                            json_member(
                                "message"@,
                                json_string("verify it before you call it done"@),
                            ),
                            json_member("stop"@, json_bool(false)),
                        ],
                    ),
                )
            } else if op == "judge"@ {
                if text_of(request.kind) == Some("boolean"@) {
                    Ok(
                        verdict(
                            json_bool(
                                !task_steers(task_in(messages@), "should-fail"@) && blocker_in(
                                    messages@,
                                ) is None,
                            ),
                            "fake judge verdict"@,
                        ),
                    )
                } else {
                    Ok(
                        verdict(
                            decimal(
                                match request.max {
                                    Some(max) => max as nat,
                                    None => DEFAULT_MAX_SCORE as nat,
                                },
                            ),
                            "fake numeric verdict"@,
                        ),
                    )
                }
            } else if op == "assess"@ {
                Ok(json_object(seq![json_member("text"@, json_string("None"@))]))
            } else {
                Err("fake-provider: unknown op Some("@ + quoted(op) + ")"@)
            },
        },
    }
}

/// A judgement, and why.
pub open spec fn verdict(value: Seq<char>, reason: Seq<char>) -> Seq<char> {
    json_object(
        seq![json_member("value"@, value), json_member("reason"@, json_string(reason))],
    )
}

fn write_verdict(value: &str, reason: &str) -> (text: String)
    ensures
        text@ == verdict(value@, reason@),
{
    let mut members: Vec<String> = Vec::new();
    members.push(write_member("value", value));
    members.push(write_string_member("reason", reason));
    assert(texts_of(members@) =~= seq![
        json_member("value"@, value@),
        json_member("reason"@, json_string(reason@)),
    ]);
    write_object(&members)
}

/// What a request is answered with.
pub fn respond(request: &Request) -> (response: Result<String, String>)
    ensures
        match response_of(*request) {
            Ok(wanted) => response matches Ok(text) && text@ == wanted,
            Err(wanted) => response matches Err(text) && text@ == wanted,
        },
{
    let messages = match &request.messages {
        Some(messages) => messages,
        None => return Err(
            String::from_str(
                "fake-provider: the request has no `messages` array to answer from",
            ),
        ),
    };
    let op = match &request.op {
        Some(op) => op.as_str(),
        None => return Err(String::from_str("fake-provider: unknown op None")),
    };
    if same(op, "supervisor") {
        return match &request.persona {
            None => Err(
                String::from_str(
                    "fake-provider: the supervisor request carries no `persona` string to judge a reported blocker against",
                ),
            ),
            Some(persona) => Ok(supervise(messages, persona.as_str())),
        };
    }
    if same(op, "user") {
        let mut members: Vec<String> = Vec::new();
        members.push(write_string_member("message", "verify it before you call it done"));
        members.push(write_member("stop", write_bool(false)));
        assert(texts_of(members@) =~= seq![
            json_member("message"@, json_string("verify it before you call it done"@)),
            json_member("stop"@, json_bool(false)),
        ]);
        return Ok(write_object(&members));
    }
    if same(op, "judge") {
        let boolean = match &request.kind {
            Some(kind) => same(kind.as_str(), "boolean"),
            None => false,
        };
        if boolean {
            let task = first_user_message(messages);
            let passed = !steers(task.as_str(), "should-fail") && reported_blocker(
                messages,
            ).is_none();
            return Ok(write_verdict(write_bool(passed), "fake judge verdict"));
        }
        let max: u64 = match request.max {
            Some(max) => max,
            None => DEFAULT_MAX_SCORE,
        };
        return Ok(write_verdict(write_decimal(max).as_str(), "fake numeric verdict"));
    }
    if same(op, "assess") {
        let mut members: Vec<String> = Vec::new();
        members.push(write_string_member("text", "None"));
        assert(texts_of(members@) =~= seq![json_member("text"@, json_string("None"@))]);
        return Ok(write_object(&members));
    }
    let mut why = String::from_str("fake-provider: unknown op Some(");
    why.append(quote(op).as_str());
    why.append(")");
    Err(why)
}

} // verus!
