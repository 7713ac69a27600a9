//! What the stand-ins answer, said of what they are asked.

use vstd::prelude::*;

use crate::fake_harness::{
    answer, either_flag, first_word, flag, flag_of, is_selection, named_path, on_one_line, prompt,
    recorded, sentinel, sentinel_path, steer, Named, Refusal, Turn,
};
use crate::fake_llmlint::{ask, conclude, Asked, Report};
use crate::fake_provider::{
    assistant_turns, count_from, first_user_message, last_from, reported_blocker, read_request,
    respond, retryable, task_in, Message, Request,
};
use crate::fake_view::{script, End, Script, Step};
use crate::judge_sides::{
    fields_written, read_judges, undeclared, where_given, write_judges, write_side, Entry, Shape,
    Written,
};
use crate::config::JudgeSide;
use crate::event::LabelValue;
use crate::json::{json_member, json_object, json_string};
use crate::json_read::{node_at, Node};
use crate::search::{contains, first_at, holds, read_code, split};
use crate::text::{collapse, decimal, text_of, texts_of, white_space};
use crate::text_laws::number_worth;

verus! {

// ---- Searching ----
/// Whether a pattern stands at a place of a text.
pub open spec fn stands(text: Seq<char>, pattern: Seq<char>, at: int) -> bool {
    0 <= at && at + pattern.len() <= text.len() && text.subrange(at, at + pattern.len()) == pattern
}

/// Whether a pattern stands anywhere in a text.
pub open spec fn occurs(text: Seq<char>, pattern: Seq<char>) -> bool {
    exists|at: int| stands(text, pattern, at)
}

proof fn a_search_is_exact(text: Seq<char>, pattern: Seq<char>)
    ensures
        holds(text, pattern) <==> occurs(text, pattern),
{
    crate::search::a_search_finds_the_first_place(text, pattern);
    let at = first_at(text, pattern);
    if at >= 0 {
        assert(text.skip(at).take(pattern.len() as int) =~= text.subrange(
            at,
            at + pattern.len(),
        ));
        assert(stands(text, pattern, at));
    }
    if occurs(text, pattern) {
        let i = choose|i: int| stands(text, pattern, i);
        assert(text.skip(i).take(pattern.len() as int) =~= text.subrange(i, i + pattern.len()));
        assert(crate::task::begins(text.skip(i), pattern));
    }
}

/// A search finds a pattern exactly where it stands somewhere.
pub proof fn a_search_finds_what_is_there(text: &str, pattern: &str, found: bool)
    requires
        call_ensures(contains, (text, pattern), found),
    ensures
        found <==> occurs(text@, pattern@),
{
    a_search_is_exact(text@, pattern@);
}

/// The pieces of a text hold no separator, and put back together with the separator
/// between them they are the text.
pub proof fn pieces_make_up_their_text(text: &str, separator: &str, parts: Vec<String>)
    requires
        separator@.len() > 0,
        call_ensures(split, (text, separator), parts),
    ensures
        parts@.len() > 0,
        crate::text::separated(texts_of(parts@), separator@) == text@,
{
    pieces_are_separated(text@, separator@);
    assert(texts_of(parts@).len() == parts@.len());
}

proof fn pieces_are_separated(text: Seq<char>, separator: Seq<char>)
    requires
        separator.len() > 0,
    ensures
        crate::search::pieces(text, separator).len() > 0,
        crate::text::separated(crate::search::pieces(text, separator), separator) == text,
    decreases text.len(),
{
    crate::search::a_search_finds_the_first_place(text, separator);
    let at = first_at(text, separator);
    let all = crate::search::pieces(text, separator);
    if at < 0 {
        assert(all =~= seq![text]);
    } else {
        let rest = text.skip(at + separator.len());
        pieces_are_separated(rest, separator);
        let later = crate::search::pieces(rest, separator);
        a_piece_comes_first(text.take(at), later, separator);
        assert(all =~= seq![text.take(at)] + later);
        assert(text.skip(at).take(separator.len() as int) == separator);
        assert(text =~= text.take(at) + separator + rest) by {
            assert(text.skip(at) =~= text.skip(at).take(separator.len() as int) + rest);
            assert(text =~= text.take(at) + text.skip(at));
        }
    }
}

proof fn a_piece_comes_first(first: Seq<char>, later: Seq<Seq<char>>, separator: Seq<char>)
    requires
        later.len() > 0,
    ensures
        crate::text::separated(seq![first] + later, separator) == first + separator
            + crate::text::separated(later, separator),
    decreases later.len(),
{
    let all = seq![first] + later;
    reveal_with_fuel(crate::text::separated, 2);
    if later.len() == 1 {
        assert(all.drop_last() =~= seq![first]);
        assert(all.last() == later[0]);
    } else {
        assert(all.drop_last() =~= seq![first] + later.drop_last());
        assert(all.last() == later.last());
        a_piece_comes_first(first, later.drop_last(), separator);
        let inner = crate::text::separated(later.drop_last(), separator);
        assert(first + separator + inner + separator + later.last() =~= first + separator + (inner
            + separator + later.last()));
    }
}

// ---- The provider ----
/// How many turns the agent took is how many messages are the assistant's.
pub proof fn the_assistants_messages_are_its_turns(messages: &Vec<Message>, turns: usize)
    requires
        call_ensures(assistant_turns, (messages,), turns),
    ensures
        turns <= messages@.len(),
        (forall|i: int|
            0 <= i < messages@.len() ==> text_of((#[trigger] messages@[i]).role) != Some(
                "assistant"@,
            )) <==> turns == 0,
        (forall|i: int|
            0 <= i < messages@.len() ==> text_of((#[trigger] messages@[i]).role) == Some(
                "assistant"@,
            )) <==> turns == messages@.len(),
{
    messages_are_counted(messages@, messages@.len());
}

proof fn messages_are_counted(messages: Seq<Message>, upto: nat)
    requires
        upto <= messages.len(),
    ensures
        ({
            let count = count_from(messages, "assistant"@, upto);
            &&& count <= upto
            &&& (forall|i: int|
                0 <= i < upto ==> text_of((#[trigger] messages[i]).role) != Some("assistant"@))
                <==> count == 0
            &&& (forall|i: int|
                0 <= i < upto ==> text_of((#[trigger] messages[i]).role) == Some("assistant"@))
                <==> count == upto
        }),
    decreases upto,
{
    if upto > 0 {
        messages_are_counted(messages, (upto - 1) as nat);
        let last = messages[upto - 1];
        assert(last.is_from("assistant"@) <==> text_of(last.role) == Some("assistant"@));
    }
}

/// The task is what the first message of the user says.
pub proof fn the_task_is_the_users_first_message(
    messages: &Vec<Message>,
    task: String,
    at: int,
)
    requires
        call_ensures(first_user_message, (messages,), task),
    ensures
        0 <= at < messages@.len() && text_of(messages@[at].role) == Some("user"@) && (forall|i: int|
            0 <= i < at ==> text_of((#[trigger] messages@[i]).role) != Some("user"@))
            ==> match messages@[at].content {
            Some(text) => task@ == text@,
            None => task@.len() == 0,
        },
        (forall|i: int|
            0 <= i < messages@.len() ==> text_of((#[trigger] messages@[i]).role) != Some("user"@))
            ==> task@.len() == 0,
{
    the_first_user_speaks(messages@, at);
}

proof fn the_first_user_speaks(messages: Seq<Message>, at: int)
    ensures
        0 <= at < messages.len() && text_of(messages[at].role) == Some("user"@) && (forall|i: int|
            0 <= i < at ==> text_of((#[trigger] messages[i]).role) != Some("user"@)) ==> task_in(
            messages,
        ) == match messages[at].content {
            Some(text) => text@,
            None => seq![],
        },
        (forall|i: int|
            0 <= i < messages.len() ==> text_of((#[trigger] messages[i]).role) != Some("user"@))
            ==> task_in(messages).len() == 0,
    decreases messages.len(),
{
    if messages.len() > 0 {
        let rest = messages.drop_first();
        the_first_user_speaks(rest, at - 1);
        assert(messages[0].is_from("user"@) <==> text_of(messages[0].role) == Some("user"@));
        if forall|i: int|
            0 <= i < messages.len() ==> text_of((#[trigger] messages[i]).role) != Some("user"@) {
            assert forall|i: int| 0 <= i < rest.len() implies text_of((#[trigger] rest[i]).role)
                != Some("user"@) by {
                assert(text_of(messages[i + 1].role) != Some("user"@));
            }
            assert(text_of(messages[0].role) != Some("user"@));
        }
        if at > 0 && at < messages.len() && (forall|i: int|
            0 <= i < at ==> text_of((#[trigger] messages[i]).role) != Some("user"@)) {
            assert(text_of(messages[0].role) != Some("user"@));
            assert forall|i: int| 0 <= i < at - 1 implies text_of((#[trigger] rest[i]).role)
                != Some("user"@) by {
                assert(text_of(messages[i + 1].role) != Some("user"@));
            }
            assert(rest[at - 1] == messages[at]);
        }
    }
}

/// A request with no conversation, with no operation or an unknown one, and a supervisor's
/// with no persona, is refused; every other is answered.
pub proof fn a_request_is_answered_where_it_can_be(
    request: &Request,
    response: Result<String, String>,
)
    requires
        call_ensures(respond, (request,), response),
    ensures
        response is Ok <==> request.messages is Some && (text_of(request.op) == Some("user"@)
            || text_of(request.op) == Some("judge"@) || text_of(request.op) == Some("assess"@) || (
        text_of(request.op) == Some("supervisor"@) && request.persona is Some)),
        request.messages is None ==> response->Err_0@
            == "fake-provider: the request has no `messages` array to answer from"@,
{
    reveal_strlit("user");
    reveal_strlit("judge");
    reveal_strlit("assess");
    reveal_strlit("supervisor");
    assert("user"@.len() == 4);
    assert("judge"@.len() == 5);
    assert("assess"@.len() == 6);
    assert("supervisor"@.len() == 10);
}

/// A numeric judgement gives the request's own bound, and five where it names none; the
/// user asks for verification; an assessment is none.
pub proof fn each_operation_has_its_answer(
    request: &Request,
    response: Result<String, String>,
    score: nat,
)
    requires
        call_ensures(respond, (request,), response),
        request.messages is Some,
        request.max matches Some(max) ==> score == max,
        request.max is None ==> score == 5,
    ensures
        text_of(request.op) == Some("judge"@) && text_of(request.kind) != Some("boolean"@) ==> (
        response matches Ok(text) && text@ == json_object(
            seq![
                json_member("value"@, decimal(score)),
                json_member("reason"@, json_string("fake numeric verdict"@)),
            ],
        )),
        text_of(request.op) == Some("user"@) ==> (response matches Ok(text) && text@ == json_object(
            seq![
                json_member("message"@, json_string("verify it before you call it done"@)),
                json_member("stop"@, "false"@),
            ],
        )),
        text_of(request.op) == Some("assess"@) ==> (response matches Ok(text) && text@
            == json_object(seq![json_member("text"@, json_string("None"@))])),
{
    reveal_strlit("user");
    reveal_strlit("judge");
    reveal_strlit("assess");
    reveal_strlit("supervisor");
    assert("user"@.len() == 4);
    assert("judge"@.len() == 5);
    assert("assess"@.len() == 6);
    assert("supervisor"@.len() == 10);
    assert(score == match request.max {
        Some(max) => max as nat,
        None => crate::fake_provider::DEFAULT_MAX_SCORE as nat,
    });
}

/// A boolean judgement passes exactly where the task does not say that it should fail and
/// the worker's latest turn reports no blocker.
pub proof fn a_boolean_judgement_fails_on_a_blocker(
    request: &Request,
    response: Result<String, String>,
    task: String,
    blocker: Option<String>,
)
    requires
        call_ensures(respond, (request,), response),
        request.messages is Some,
        text_of(request.op) == Some("judge"@),
        text_of(request.kind) == Some("boolean"@),
        call_ensures(first_user_message, (&request.messages->0,), task),
        call_ensures(reported_blocker, (&request.messages->0,), blocker),
    ensures
        response matches Ok(text) && text@ == json_object(
            seq![
                json_member(
                    "value"@,
                    if !occurs(task@, "fake:should-fail"@) && blocker is None {
                        "true"@
                    } else {
                        "false"@
                    },
                ),
                json_member("reason"@, json_string("fake judge verdict"@)),
            ],
        ),
{
    reveal_strlit("user");
    reveal_strlit("judge");
    reveal_strlit("supervisor");
    reveal_strlit("fake:");
    reveal_strlit("should-fail");
    reveal_strlit("fake:should-fail");
    assert("user"@.len() == 4);
    assert("judge"@.len() == 5);
    assert("supervisor"@.len() == 10);
    assert("fake:"@ + "should-fail"@ =~= "fake:should-fail"@);
    a_search_is_exact(task@, "fake:should-fail"@);
}

/// A supervisor that is told of a blocker goes on exactly where its persona says that the
/// blocker is not terminal; told of none, it is done where the worker took a turn and the
/// task does not say that it should fail.
pub proof fn a_supervisor_decides_by_its_persona(
    request: &Request,
    response: Result<String, String>,
    task: String,
    turns: usize,
    blocker: Option<String>,
    persona: &str,
    said: &str,
    retries: bool,
)
    requires
        call_ensures(respond, (request,), response),
        request.messages is Some,
        text_of(request.op) == Some("supervisor"@),
        request.persona matches Some(own) && own@ == persona@,
        call_ensures(first_user_message, (&request.messages->0,), task),
        call_ensures(assistant_turns, (&request.messages->0,), turns),
        call_ensures(reported_blocker, (&request.messages->0,), blocker),
        blocker matches Some(own) ==> own@ == said@,
        call_ensures(retryable, (persona, said), retries),
    ensures
        blocker is Some && retries ==> (response matches Ok(text) && text@ == json_object(
            seq![
                json_member("completion"@, "false"@),
                json_member("message"@, json_string("run it again and keep going: "@ + said@)),
                json_member(
                    "reason"@,
                    json_string(
                        "the blocker reported is one the worker could retry in this run"@,
                    ),
                ),
            ],
        )),
        blocker is Some && !retries ==> (response matches Ok(text) && text@ == json_object(
            seq![
                json_member("completion"@, "false"@),
                json_member("reason"@, json_string("terminal blocker reported: "@ + said@)),
            ],
        )),
        blocker is None && turns >= 1 && !occurs(task@, "fake:should-fail"@) ==> (
        response matches Ok(text) && text@ == json_object(
            seq![
                json_member("completion"@, "true"@),
                json_member("reason"@, json_string("fake supervisor verified completion"@)),
            ],
        )),
        blocker is None && (turns == 0 || occurs(task@, "fake:should-fail"@)) ==> (
        response matches Ok(text) && text@ == json_object(
            seq![
                json_member("completion"@, "false"@),
                json_member("message"@, json_string("verify it before you call it done"@)),
                json_member("reason"@, json_string("fake supervisor requires another turn"@)),
            ],
        )),
{
    reveal_strlit("fake:");
    reveal_strlit("should-fail");
    reveal_strlit("fake:should-fail");
    assert("fake:"@ + "should-fail"@ =~= "fake:should-fail"@);
    a_search_is_exact(task@, "fake:should-fail"@);
    let go = seq![json_member("completion"@, "false"@)];
    let again = seq![
        json_member("message"@, json_string("run it again and keep going: "@ + said@)),
    ];
    let first = seq![
        json_member(
            "reason"@,
            json_string("the blocker reported is one the worker could retry in this run"@),
        ),
    ];
    assert(go + again + first =~= seq![go[0], again[0], first[0]]);
    let over = seq![json_member("reason"@, json_string("terminal blocker reported: "@ + said@))];
    assert(go + Seq::<Seq<char>>::empty() + over =~= seq![go[0], over[0]]);
    let verify = seq![
        json_member("message"@, json_string("verify it before you call it done"@)),
    ];
    let another = seq![
        json_member("reason"@, json_string("fake supervisor requires another turn"@)),
    ];
    assert(go + verify + another =~= seq![go[0], verify[0], another[0]]);
}

proof fn the_latest_speaks_last(messages: Seq<Message>, upto: nat)
    requires
        upto <= messages.len(),
    ensures
        ({
            let at = last_from(messages, "assistant"@, upto);
            &&& -1 <= at < upto
            &&& at >= 0 ==> text_of(messages[at].role) == Some("assistant"@)
            &&& forall|i: int|
                at < i < upto ==> text_of((#[trigger] messages[i]).role) != Some("assistant"@)
        }),
    decreases upto,
{
    if upto > 0 {
        the_latest_speaks_last(messages, (upto - 1) as nat);
    }
}

/// A blocker is what the worker's latest turn reports: none where the worker said nothing
/// yet, and none of what it said before counts.
pub proof fn a_blocker_is_the_latest_turns(
    messages: &Vec<Message>,
    other: &Vec<Message>,
    condition: Option<String>,
    elsewhere: Option<String>,
    at: int,
    place: int,
)
    requires
        call_ensures(reported_blocker, (messages,), condition),
        call_ensures(reported_blocker, (other,), elsewhere),
    ensures
        (forall|i: int|
            0 <= i < messages@.len() ==> text_of((#[trigger] messages@[i]).role) != Some(
                "assistant"@,
            )) ==> condition is None,
        0 <= at < messages@.len() && 0 <= place < other@.len() && text_of(messages@[at].role)
            == Some("assistant"@) && text_of(other@[place].role) == Some("assistant"@) && (forall|
            i: int,
        |
            at < i < messages@.len() ==> text_of((#[trigger] messages@[i]).role) != Some(
                "assistant"@,
            )) && (forall|i: int|
            place < i < other@.len() ==> text_of((#[trigger] other@[i]).role) != Some(
                "assistant"@,
            )) && messages@[at].content == other@[place].content ==> text_of(condition) == text_of(
            elsewhere,
        ),
{
    the_latest_speaks_last(messages@, messages@.len());
    the_latest_speaks_last(other@, other@.len());
    let here = last_from(messages@, "assistant"@, messages@.len());
    let there = last_from(other@, "assistant"@, other@.len());
    if 0 <= at < messages@.len() && text_of(messages@[at].role) == Some("assistant"@) {
        if here < at {
            assert(text_of(messages@[at].role) != Some("assistant"@));
        }
    }
    if 0 <= place < other@.len() && text_of(other@[place].role) == Some("assistant"@) {
        if there < place {
            assert(text_of(other@[place].role) != Some("assistant"@));
        }
    }
    if here >= 0 {
        assert(text_of(messages@[here].role) == Some("assistant"@));
    }
    if there >= 0 {
        assert(text_of(other@[there].role) == Some("assistant"@));
    }
}

// ---- The harness ----
/// A flag's value is what follows the first place it stands.
pub proof fn a_flag_is_followed_by_its_value(
    argv: &Vec<String>,
    name: &str,
    value: Option<String>,
    at: int,
)
    requires
        call_ensures(flag, (argv, name), value),
    ensures
        0 <= at < argv@.len() && argv@[at]@ == name@ && (forall|i: int|
            0 <= i < at ==> (#[trigger] argv@[i])@ != name@) ==> text_of(value) == if at + 1
            < argv@.len() {
            Some(argv@[at + 1]@)
        } else {
            None
        },
        (forall|i: int| 0 <= i < argv@.len() ==> (#[trigger] argv@[i])@ != name@) ==> value is None,
{
    a_flag_is_found(argv@, name@, at);
}

proof fn a_flag_is_found(argv: Seq<String>, name: Seq<char>, at: int)
    ensures
        0 <= at < argv.len() && argv[at]@ == name && (forall|i: int|
            0 <= i < at ==> (#[trigger] argv[i])@ != name) ==> flag_of(argv, name) == if at + 1
            < argv.len() {
            Some(argv[at + 1]@)
        } else {
            None
        },
        (forall|i: int| 0 <= i < argv.len() ==> (#[trigger] argv[i])@ != name) ==> flag_of(
            argv,
            name,
        ) is None,
    decreases argv.len(),
{
    if argv.len() > 0 {
        let rest = argv.drop_first();
        a_flag_is_found(rest, name, at - 1);
        if forall|i: int| 0 <= i < argv.len() ==> (#[trigger] argv[i])@ != name {
            assert(argv[0]@ != name);
            assert forall|i: int| 0 <= i < rest.len() implies (#[trigger] rest[i])@ != name by {
                assert(argv[i + 1]@ != name);
            }
        }
        if 0 < at < argv.len() && (forall|i: int| 0 <= i < at ==> (#[trigger] argv[i])@ != name) {
            assert(argv[0]@ != name);
            assert forall|i: int| 0 <= i < at - 1 implies (#[trigger] rest[i])@ != name by {
                assert(argv[i + 1]@ != name);
            }
        }
    }
}

/// A harness that is told to crash exits with the code it is told, having published
/// nothing; otherwise a refusal exits one; otherwise it hangs where its prompt says so, and
/// answers where it does not. What it cannot read exits two.
pub proof fn a_harness_does_as_it_is_told(
    crash: Option<&str>,
    refusal: &str,
    session: &str,
    prompted: &str,
    turn: Turn,
)
    requires
        call_ensures(steer, (crash, refusal, session, prompted), turn),
    ensures
        crash is Some ==> (turn matches Turn::Exit { stdout, stderr, .. } && stdout is None
            && stderr is Some),
        crash matches Some(text) ==> (turn matches Turn::Exit { code: with, .. }
            && match crate::search::integer_of(text@) {
            Some(code) => i32::MIN <= code <= i32::MAX ==> with == code,
            None => with == 2,
        }),
        crash is None && (refusal@ == "auth"@ || refusal@ == "quota"@ || refusal@ == "rate_limit"@)
            ==> (turn matches Turn::Exit { code: with, .. } && with == 1),
        crash is None && refusal@ == "auth"@ ==> (turn matches Turn::Exit { stdout, stderr, .. }
            && stdout is None && stderr is Some),
        crash is None && (refusal@ == "quota"@ || refusal@ == "rate_limit"@) ==> (
        turn matches Turn::Exit { stdout, stderr, .. } && stdout is Some && stderr is None),
        crash is None && refusal@.len() == 0 ==> (turn is Hang <==> occurs(
            prompted@,
            "fake:hang"@,
        )) && (turn is Answer <==> !occurs(prompted@, "fake:hang"@)),
        turn matches Turn::Answer(lines) ==> lines@.len() == 3,
{
    reveal_strlit("");
    reveal_strlit("auth");
    reveal_strlit("quota");
    reveal_strlit("rate_limit");
    assert(""@ =~= Seq::<char>::empty());
    if refusal@.len() == 0 {
        assert(refusal@ =~= ""@);
    }
    assert("auth"@.len() == 4);
    assert("quota"@.len() == 5);
    assert("rate_limit"@.len() == 10);
    a_search_is_exact(prompted@, "fake:hang"@);
    if let Turn::Answer(lines) = turn {
        assert(texts_of(lines@).len() == lines@.len());
    }
}

/// What a side answers is decided by which side its prompt is of, in this order: the
/// supervisor, the user, a judge, an assessor, and the worker.
pub proof fn a_side_answers_as_its_prompt_says(prompted: &str, text: String)
    requires
        call_ensures(answer, (prompted,), text),
    ensures
        ({
            let failing = occurs(prompted@, "should-fail"@);
            let supervisor = occurs(prompted@, "completion supervisor"@);
            let user = !supervisor && occurs(prompted@, "role-playing the USER"@);
            let judge = !supervisor && !user && occurs(prompted@, "Criterion:"@);
            let assessor = !supervisor && !user && !judge && occurs(
                prompted@,
                "Assessment request:"@,
            );
            let worker = !supervisor && !user && !judge && !assessor;
            &&& supervisor && failing ==> text@ == json_object(
                seq![
                    json_member("completion"@, "false"@),
                    json_member("message"@, json_string("verify it before you call it done"@)),
                    json_member("reason"@, json_string("fake supervisor requires another turn"@)),
                ],
            )
            &&& supervisor && !failing ==> text@ == json_object(
                seq![
                    json_member("completion"@, "true"@),
                    json_member("reason"@, json_string("fake supervisor verified completion"@)),
                ],
            )
            &&& user ==> text@ == "verify it before you call it done"@
            &&& judge ==> text@ == json_object(
                seq![
                    json_member(
                        "value"@,
                        if failing {
                            "false"@
                        } else {
                            "true"@
                        },
                    ),
                    json_member("reason"@, json_string("fake judge verdict"@)),
                ],
            )
            &&& assessor ==> text@ == "None"@
            &&& worker && occurs(prompted@, "complete-now"@) ==> text@ == "done"@
            &&& worker && !occurs(prompted@, "complete-now"@) ==> text@ == "working on it"@
        }),
{
    a_search_is_exact(prompted@, "should-fail"@);
    a_search_is_exact(prompted@, "completion supervisor"@);
    a_search_is_exact(prompted@, "role-playing the USER"@);
    a_search_is_exact(prompted@, "Criterion:"@);
    a_search_is_exact(prompted@, "Assessment request:"@);
    a_search_is_exact(prompted@, "complete-now"@);
}

/// A path that a prompt names is acted on only where it is from the root, in a directory
/// that is there.
pub proof fn a_named_path_is_acted_on_where_it_is_safe(
    prompted: &str,
    key: &str,
    there: bool,
    named: Named,
    path: Option<String>,
)
    requires
        call_ensures(sentinel_path, (prompted, key, there), named),
        call_ensures(named_path, (prompted, key), path),
    ensures
        named is Nothing <==> path is None,
        named matches Named::Usable(found) ==> path is Some && found@ == path->0@ && there
            && found@.len() > 0 && found@[0] == '/',
        path is Some && !there ==> named is Unusable,
        path matches Some(text) && text@.len() > 0 && text@[0] != '/' ==> named is Unusable,
{
}

/// What is recorded is one line: each newline of it is written as an escape, and
/// everything else of it stands as it was.
pub proof fn what_is_recorded_is_one_line(
    line: &str,
    text: String,
    first: &str,
    before: String,
    second: &str,
    after: String,
)
    requires
        call_ensures(recorded, (line,), text),
        call_ensures(recorded, (first,), before),
        call_ensures(recorded, (second,), after),
    ensures
        forall|i: int| 0 <= i < text@.len() ==> #[trigger] text@[i] != '\n',
        (forall|i: int| 0 <= i < line@.len() ==> #[trigger] line@[i] != '\n') ==> text@ == line@,
        line@ == seq!['\n'] ==> text@ == seq!['\\', 'n'],
        line@ == first@ + second@ ==> text@ == before@ + after@,
{
    a_line_is_one(line@);
    if line@ == seq!['\n'] {
        reveal_with_fuel(on_one_line, 2);
        assert(line@.drop_last() =~= seq![]);
        assert(text@ =~= seq!['\\', 'n']);
    }
    lines_are_recorded_alike(first@, second@);
}

proof fn lines_are_recorded_alike(first: Seq<char>, second: Seq<char>)
    ensures
        on_one_line(first + second) == on_one_line(first) + on_one_line(second),
    decreases second.len(),
{
    let whole = first + second;
    if second.len() == 0 {
        assert(whole =~= first);
        assert(on_one_line(whole) =~= on_one_line(first) + on_one_line(second));
    } else {
        lines_are_recorded_alike(first, second.drop_last());
        assert(whole.drop_last() =~= first + second.drop_last());
        assert(whole.last() == second.last());
        assert(on_one_line(whole) =~= on_one_line(first) + on_one_line(second));
    }
}

proof fn a_line_is_one(line: Seq<char>)
    ensures
        forall|i: int|
            0 <= i < on_one_line(line).len() ==> #[trigger] on_one_line(line)[i] != '\n',
        (forall|i: int| 0 <= i < line.len() ==> #[trigger] line[i] != '\n') ==> on_one_line(line)
            == line,
    decreases line.len(),
{
    if line.len() > 0 {
        let rest = line.drop_last();
        a_line_is_one(rest);
        let written = on_one_line(rest);
        assert forall|i: int| 0 <= i < on_one_line(line).len() implies #[trigger] on_one_line(
            line,
        )[i] != '\n' by {
            if i < written.len() {
                assert(written[i] != '\n');
                assert(on_one_line(line)[i] == written[i]);
            }
        }
        if forall|i: int| 0 <= i < line.len() ==> #[trigger] line[i] != '\n' {
            assert forall|i: int| 0 <= i < rest.len() implies #[trigger] rest[i] != '\n' by {
                assert(line[i] != '\n');
            }
            assert(line[line.len() - 1] != '\n');
            assert(rest.push(line.last()) =~= line);
        }
    } else {
        assert(on_one_line(line) =~= line);
    }
}

/// A value asks for the refusal of its name, for none where it is empty, and for nothing
/// there is otherwise.
pub proof fn a_refusal_is_asked_for_by_name(requested: &str, refusal: Option<Option<Refusal>>)
    requires
        call_ensures(Refusal::parse, (requested,), refusal),
    ensures
        refusal == Some(None::<Refusal>) <==> requested@.len() == 0,
        refusal == Some(Some(Refusal::Auth)) <==> requested@ == "auth"@,
        refusal == Some(Some(Refusal::Quota)) <==> requested@ == "quota"@,
        refusal == Some(Some(Refusal::RateLimit)) <==> requested@ == "rate_limit"@,
{
    reveal_strlit("");
    reveal_strlit("auth");
    reveal_strlit("quota");
    reveal_strlit("rate_limit");
    assert(""@ =~= Seq::<char>::empty());
    if requested@.len() == 0 {
        assert(requested@ =~= ""@);
    }
    assert("auth"@.len() == 4);
    assert("quota"@.len() == 5);
    assert("rate_limit"@.len() == 10);
}

/// A prompt is the system half and the task, by either spelling of each flag, the first
/// spelling first.
pub proof fn a_prompt_is_its_two_halves(
    argv: &Vec<String>,
    whole: String,
    system: Option<String>,
    long_system: Option<String>,
    task: Option<String>,
    long_task: Option<String>,
)
    requires
        call_ensures(prompt, (argv,), whole),
        call_ensures(flag, (argv, "--append-system-prompt"), system),
        call_ensures(flag, (argv, "--system"), long_system),
        call_ensures(flag, (argv, "-p"), task),
        call_ensures(flag, (argv, "--prompt"), long_task),
    ensures
        exists|first: Seq<char>, second: Seq<char>|
            {
                &&& whole@ == #[trigger] (first + "\n"@ + second)
                &&& (system is Some ==> first == system->0@)
                &&& (system is None && long_system is Some ==> first == long_system->0@)
                &&& (system is None && long_system is None ==> first.len() == 0)
                &&& (task is Some ==> second == task->0@)
                &&& (task is None && long_task is Some ==> second == long_task->0@)
                &&& (task is None && long_task is None ==> second.len() == 0)
            },
{
    let first = either_flag(argv@, "--append-system-prompt"@, "--system"@);
    let second = either_flag(argv@, "-p"@, "--prompt"@);
    assert(whole@ == first + "\n"@ + second);
}

proof fn a_word_ends_at_white_space(text: Seq<char>)
    ensures
        ({
            let word = first_word(text);
            &&& word.len() <= text.len()
            &&& word == text.take(word.len() as int)
            &&& forall|i: int| 0 <= i < word.len() ==> !white_space(#[trigger] text[i])
            &&& word.len() < text.len() ==> white_space(text[word.len() as int])
        }),
    decreases text.len(),
{
    let word = first_word(text);
    if text.len() > 0 && !white_space(text[0]) {
        let rest = text.drop_first();
        a_word_ends_at_white_space(rest);
        let inner = first_word(rest);
        assert(word =~= text.take(word.len() as int));
        assert forall|i: int| 0 <= i < word.len() implies !white_space(#[trigger] text[i]) by {
            if i > 0 {
                assert(rest[i - 1] == text[i]);
            }
        }
        if word.len() < text.len() {
            assert(rest[inner.len() as int] == text[word.len() as int]);
        }
    } else {
        assert(word =~= text.take(0));
    }
}

/// A sentinel says what follows the first place it stands, up to the next white space; one
/// that stands nowhere says nothing.
pub proof fn a_sentinel_says_the_rest_of_its_word(
    prompted: &str,
    key: &str,
    value: Option<String>,
)
    requires
        call_ensures(sentinel, (prompted, key), value),
    ensures
        value is Some <==> occurs(prompted@, key@),
        value matches Some(word) ==> exists|at: int|
            {
                let from = at + key@.len();
                &&& #[trigger] stands(prompted@, key@, at)
                &&& (forall|i: int| i < at ==> !#[trigger] stands(prompted@, key@, i))
                &&& from + word@.len() <= prompted@.len()
                &&& prompted@.subrange(from, from + word@.len()) == word@
                &&& (forall|i: int|
                    0 <= i < word@.len() ==> !white_space(#[trigger] word@[i]))
                &&& from + word@.len() < prompted@.len() ==> white_space(
                    prompted@[from + word@.len()],
                )
            },
{
    let text = prompted@;
    let pattern = key@;
    a_search_is_exact(text, pattern);
    crate::search::a_search_finds_the_first_place(text, pattern);
    let at = first_at(text, pattern);
    if let Some(word) = value {
        assert(text.skip(at).take(pattern.len() as int) =~= text.subrange(at, at + pattern.len()));
        assert(stands(text, pattern, at));
        assert forall|i: int| i < at implies !#[trigger] stands(text, pattern, i) by {
            if stands(text, pattern, i) {
                assert(text.skip(i).take(pattern.len() as int) =~= text.subrange(
                    i,
                    i + pattern.len(),
                ));
                assert(crate::task::begins(text.skip(i), pattern));
            }
        }
        let from = at + pattern.len();
        let rest = text.skip(from);
        a_word_ends_at_white_space(rest);
        assert(text.subrange(from, from + word@.len()) =~= rest.take(word@.len() as int));
        assert forall|i: int| 0 <= i < word@.len() implies !white_space(#[trigger] word@[i]) by {
            assert(word@[i] == rest[i]);
        }
        if from + word@.len() < text.len() {
            assert(rest[word@.len() as int] == text[from + word@.len()]);
        }
    }
}

/// Whether a text ends with another.
pub open spec fn ends_in(text: Seq<char>, end: Seq<char>) -> bool {
    stands(text, end, text.len() - end.len())
}

/// A variable is selection-shaped by how its name ends or begins.
pub proof fn a_selection_is_told_by_its_name(name: &str, answer: bool)
    requires
        call_ensures(is_selection, (name,), answer),
    ensures
        answer <==> ends_in(name@, "_HARNESSES"@) || ends_in(name@, "_MODEL"@) || ends_in(
            name@,
            "_MODE"@,
        ) || stands(name@, "ONEAGENTGRAPH_TEST_"@, 0),
{
    an_end_is_an_end(name@, "_HARNESSES"@);
    an_end_is_an_end(name@, "_MODEL"@);
    an_end_is_an_end(name@, "_MODE"@);
    let prefix = "ONEAGENTGRAPH_TEST_"@;
    if prefix.len() <= name@.len() {
        assert(name@.take(prefix.len() as int) =~= name@.subrange(0, prefix.len() as int));
    }
}

proof fn an_end_is_an_end(text: Seq<char>, end: Seq<char>)
    ensures
        crate::fake_harness::ends(text, end) <==> ends_in(text, end),
{
    if end.len() <= text.len() {
        assert(text.skip(text.len() - end.len()) =~= text.subrange(
            text.len() - end.len(),
            text.len() - end.len() + end.len(),
        ));
        assert(text.skip(text.len() - end.len()).take(end.len() as int) =~= text.skip(
            text.len() - end.len(),
        ));
    }
}

/// A code is read from digits with at most one sign before them, as the number they are
/// worth; nothing else is one.
pub proof fn a_code_is_what_its_digits_are_worth(text: &str, code: Option<i32>)
    requires
        call_ensures(read_code, (text,), code),
    ensures
        code matches Some(number) ==> text@.len() > 0 && ({
            let digits = if text@[0] == '-' || text@[0] == '+' {
                text@.drop_first()
            } else {
                text@
            };
            let worth = number_worth(digits, 10);
            &&& digits.len() > 0
            &&& forall|i: int| 0 <= i < digits.len() ==> '0' <= #[trigger] digits[i] <= '9'
            &&& number == if text@[0] == '-' {
                -worth
            } else {
                worth
            }
        }),
        text@.len() > 0 && (forall|i: int| 0 <= i < text@.len() ==> '0' <= #[trigger] text@[i] <= '9')
            && number_worth(text@, 10) <= i32::MAX ==> code is Some,
{
    digits_are_worth_their_number(text@);
    if text@.len() > 0 {
        digits_are_worth_their_number(text@.drop_first());
        if crate::search::all_digits(text@) {
            assert(crate::search::digit_value(text@[0]) >= 0);
        }
    }
}

proof fn digits_are_worth_their_number(text: Seq<char>)
    ensures
        crate::search::all_digits(text) <==> text.len() > 0 && forall|i: int|
            0 <= i < text.len() ==> '0' <= #[trigger] text[i] <= '9',
        (forall|i: int| 0 <= i < text.len() ==> '0' <= #[trigger] text[i] <= '9')
            ==> crate::search::digits_value(text) == number_worth(text, 10) && number_worth(text, 10)
            >= 0,
    decreases text.len(),
{
    if crate::search::all_digits(text) {
        assert forall|i: int| 0 <= i < text.len() implies '0' <= #[trigger] text[i] <= '9' by {
            assert(crate::search::digit_value(text[i]) >= 0);
        }
    }
    if text.len() > 0 {
        let rest = text.drop_last();
        digits_are_worth_their_number(rest);
        if forall|i: int| 0 <= i < text.len() ==> '0' <= #[trigger] text[i] <= '9' {
            assert forall|i: int| 0 <= i < rest.len() implies '0' <= #[trigger] rest[i] <= '9' by {
                assert(text[i] == rest[i]);
            }
            assert('0' <= text[text.len() - 1] <= '9');
        }
    }
}

// ---- The linter ----
/// A linter answers its version whatever it is told, runs where it is asked to lint and is
/// refused where it is not: zero where it passes, one where it fails, and two where it could
/// not run.
pub proof fn a_linter_exits_as_it_is_told(
    argv: &Vec<String>,
    verdict: &Option<String>,
    marker: &Option<String>,
    asked: Asked,
)
    requires
        call_ensures(ask, (argv, verdict, marker), asked),
    ensures
        argv@.len() > 0 && argv@[0]@ == "--version"@ ==> (asked matches Asked::Report(report)
            && report.code == 0),
        (argv@.len() == 0 || (argv@[0]@ != "--version"@ && argv@[0]@ != "lint"@)) ==> (
        asked matches Asked::Report(report) && report.code == 2),
        argv@.len() > 0 && argv@[0]@ == "lint"@ ==> {
            let told = text_of(*verdict);
            &&& told is None || told == Some("pass"@) ==> (asked matches Asked::Report(report)
                && report.code == 0)
            &&& told == Some("fail"@) ==> (asked matches Asked::Report(report) && report.code == 1)
            &&& told == Some("broken"@) ==> (asked matches Asked::Report(report) && report.code
                == 2)
            &&& told == Some("fail-once"@) && *marker is Some ==> (asked matches Asked::Once(file)
                && file@ == (*marker)->0@)
            &&& told == Some("fail-once"@) && *marker is None ==> (asked matches Asked::Report(
                report,
            ) && report.code == 2)
            &&& (told matches Some(text) && text != "pass"@ && text != "fail"@ && text
                != "fail-once"@ && text != "broken"@) ==> (asked matches Asked::Report(report) && report.code == 2)
        },
{
    reveal_strlit("--version");
    reveal_strlit("lint");
    reveal_strlit("pass");
    reveal_strlit("fail");
    reveal_strlit("fail-once");
    reveal_strlit("broken");
    assert("--version"@.len() == 9);
    assert("lint"@.len() == 4);
    assert("pass"@[0] == 'p');
    assert("fail"@[0] == 'f');
    assert("fail-once"@.len() == 9);
    assert("broken"@.len() == 6);
}

/// A run that passed exits zero, and one that failed exits one; neither complains.
pub proof fn a_lint_concludes_by_its_verdict(passed: bool, report: Report)
    requires
        call_ensures(conclude, (passed,), report),
    ensures
        passed <==> report.code == 0,
        !passed <==> report.code == 1,
        report.stderr@.len() == 0,
{
}

// ---- The view ----
/// A view that is given nothing prints nothing and exits zero; one that is told to say or
/// to complain does, on the stream it is told, and then whatever the rest of its arguments
/// say.
pub proof fn a_view_says_what_it_is_told(argv: &Vec<String>, told: Script)
    requires
        call_ensures(script, (argv,), told),
    ensures
        argv@.len() == 0 ==> told.steps@.len() == 0 && told.end == (End::Exit {
            code: 0,
            hang: false,
        }),
        argv@.len() == 2 && argv@[0]@ == "--say"@ ==> told.steps@.len() == 1 && (
        told.steps@[0] matches Step::Say(text) && text@ == argv@[1]@ + "\n"@) && told.end == (
        End::Exit { code: 0, hang: false }),
        argv@.len() == 2 && argv@[0]@ == "--complain"@ ==> told.steps@.len() == 1 && (
        told.steps@[0] matches Step::Complain(text) && text@ == argv@[1]@ + "\n"@) && told.end == (
        End::Exit { code: 0, hang: false }),
        argv@.len() == 1 && argv@[0]@ == "--hang"@ ==> told.end == (End::Exit {
            code: 0,
            hang: true,
        }),
        argv@.len() == 1 && argv@[0]@ != "--hang"@ ==> told.end is Refused,
        argv@.len() == 2 && argv@[0]@ == "--fail"@ && (crate::search::integer_of(
            argv@[1]@,
        ) matches Some(code) && i32::MIN <= code <= i32::MAX) ==> (told.end matches End::Exit {
            code,
            hang,
        } && code == crate::search::integer_of(argv@[1]@)->0 && !hang),
{
    reveal_strlit("--say");
    reveal_strlit("--bulk");
    reveal_strlit("--hang");
    reveal_strlit("--fail");
    reveal_strlit("--complain");
    assert("--say"@.len() == 5);
    assert("--complain"@.len() == 10);
    assert("--hang"@[2] == 'h');
    assert("--fail"@[2] == 'f');
    assert("--bulk"@[2] == 'b');
    reveal_with_fuel(crate::fake_view::script_of, 3);
    let printed = crate::fake_view::all_printed(told.steps@);
    assert(printed.len() == told.steps@.len());
    if told.steps@.len() > 0 {
        assert(printed[0] == crate::fake_view::printed(told.steps@[0]));
    }
}

// ---- A judge list ----
/// Whether the keys of an entry are all among these.
pub open spec fn keys_among(keys: Seq<String>, known: Seq<Seq<char>>) -> bool {
    forall|i: int| 0 <= i < keys.len() ==> known.contains((#[trigger] keys[i])@)
}

/// Whether an entry has a key.
pub open spec fn has_key(keys: Seq<String>, key: Seq<char>) -> bool {
    exists|i: int| 0 <= i < keys.len() && (#[trigger] keys[i])@ == key
}

proof fn every_key_is_declared(keys: Seq<String>, shape: Shape)
    ensures
        undeclared(keys, shape) is None <==> forall|i: int|
            0 <= i < keys.len() ==> shape.declares((#[trigger] keys[i])@),
    decreases keys.len(),
{
    if keys.len() > 0 {
        let rest = keys.drop_first();
        every_key_is_declared(rest, shape);
        if undeclared(keys, shape) is None {
            assert forall|i: int| 0 <= i < keys.len() implies shape.declares(
                (#[trigger] keys[i])@,
            ) by {
                if i > 0 {
                    assert(shape.declares(rest[i - 1]@));
                }
            }
        }
        if forall|i: int| 0 <= i < keys.len() ==> shape.declares((#[trigger] keys[i])@) {
            assert(shape.declares(keys[0]@));
            assert forall|i: int| 0 <= i < rest.len() implies shape.declares(
                (#[trigger] rest[i])@,
            ) by {
                assert(shape.declares(keys[i + 1]@));
            }
        }
    }
}

/// The fields each shape of judge has.
pub open spec fn fields_of(side: JudgeSide) -> Seq<Seq<char>> {
    match side {
        JudgeSide::Harness(_) => seq!["oneharness_config"@, "model"@, "label"@],
        JudgeSide::Llmlint(_) => seq![
            "kind"@,
            "config"@,
            "bin"@,
            "diff_base"@,
            "args"@,
            "label"@,
        ],
        JudgeSide::Command(_) => seq!["command"@, "label"@],
    }
}

/// Whether an entry's keys say that it is a side of this shape: `oneharness_config` before
/// everything else, then a `kind` of `llmlint`, then a `command`.
pub open spec fn keys_say(entry: Entry, side: JudgeSide) -> bool {
    entry matches Entry::Mapping { keys, kind } && match side {
        JudgeSide::Harness(_) => has_key(keys@, "oneharness_config"@),
        JudgeSide::Llmlint(_) => !has_key(keys@, "oneharness_config"@) && (kind matches Some(
            LabelValue::Text(text),
        ) && text@ == "llmlint"@),
        JudgeSide::Command(_) => !has_key(keys@, "oneharness_config"@) && kind is None && has_key(
            keys@,
            "command"@,
        ),
    }
}

proof fn an_entry_is_read_by_its_keys(entry: Entry, read: Result<JudgeSide, String>)
    ensures
        crate::judge_sides::side_of(entry, read) is Ok <==> (read matches Ok(side) && keys_say(
            entry,
            side,
        ) && keys_among(crate::judge_sides::keys_of(entry), fields_of(side))),
        crate::judge_sides::side_of(entry, read) matches Ok(side) ==> read == Ok::<
            JudgeSide,
            String,
        >(side),
{
    let keys = crate::judge_sides::keys_of(entry);
    assert(crate::text::holds_text(keys, "oneharness_config"@) <==> has_key(
        keys,
        "oneharness_config"@,
    ));
    assert(crate::text::holds_text(keys, "command"@) <==> has_key(keys, "command"@));
    if let Ok(side) = read {
        let shape = crate::judge_sides::shape_of_side(side);
        every_key_is_declared(keys, shape);
        let known = fields_of(side);
        assert forall|key: Seq<char>| #[trigger] shape.declares(key) <==> known.contains(key) by {
            match side {
                JudgeSide::Harness(_) => {
                    assert(known[0] == "oneharness_config"@);
                    assert(known[1] == "model"@);
                    assert(known[2] == "label"@);
                },
                JudgeSide::Llmlint(_) => {
                    assert(known[0] == "kind"@);
                    assert(known[1] == "config"@);
                    assert(known[2] == "bin"@);
                    assert(known[3] == "diff_base"@);
                    assert(known[4] == "args"@);
                    assert(known[5] == "label"@);
                },
                JudgeSide::Command(_) => {
                    assert(known[0] == "command"@);
                    assert(known[1] == "label"@);
                },
            }
        }
    }
}

/// An entry is a judge exactly where its fields were read as one whose shape its keys say,
/// and every key of it is a field of that shape.
pub proof fn an_entry_is_the_judge_its_keys_say(
    entry: &Entry,
    read: Result<JudgeSide, String>,
    side: Result<JudgeSide, String>,
)
    requires
        call_ensures(JudgeSide::classify, (entry, read), side),
    ensures
        side is Ok <==> (read matches Ok(found) && keys_say(*entry, found) && keys_among(
            crate::judge_sides::keys_of(*entry),
            fields_of(found),
        )),
        side matches Ok(found) ==> read == Ok::<JudgeSide, String>(found),
{
    an_entry_is_read_by_its_keys(*entry, read);
}

/// One mapping reads as its one judge, a list as its judges in order, and anything else is
/// refused; a list is refused exactly where one of its entries is no judge.
pub proof fn a_judge_list_reads_in_order(written: Written, sides: Result<Vec<JudgeSide>, String>)
    requires
        call_ensures(read_judges, (written,), sides),
    ensures
        written is Neither ==> sides is Err,
        written matches Written::One(entry, read) ==> (sides is Ok <==> (read matches Ok(side)
            && keys_say(entry, side) && keys_among(
            crate::judge_sides::keys_of(entry),
            fields_of(side),
        ))),
        written matches Written::One(_, read) && sides is Ok ==> sides->Ok_0@.len() == 1
            && written->One_1 == Ok::<JudgeSide, String>(sides->Ok_0@[0]),
        written matches Written::List(entries) ==> (sides is Ok <==> forall|i: int|
            0 <= i < entries@.len() ==> ((#[trigger] entries@[i]).1 matches Ok(side) && keys_say(
                entries@[i].0,
                side,
            ) && keys_among(crate::judge_sides::keys_of(entries@[i].0), fields_of(side)))),
        written is List && sides is Ok ==> sides->Ok_0@.len() == written->List_0@.len() && forall|
            i: int,
        |
            0 <= i < sides->Ok_0@.len() ==> written->List_0@[i].1 == Ok::<JudgeSide, String>(
                #[trigger] sides->Ok_0@[i],
            ),
{
    match written {
        Written::One(entry, read) => {
            an_entry_is_read_by_its_keys(entry, read);
        },
        Written::List(entries) => {
            every_entry_is_looked_at(entries@, entries@.len());
            if sides is Ok {
                assert forall|i: int| 0 <= i < sides->Ok_0@.len() implies entries@[i].1 == Ok::<
                    JudgeSide,
                    String,
                >(#[trigger] sides->Ok_0@[i]) by {
                    assert(entries@[i].1 is Ok);
                }
            }
        },
        _ => {},
    }
}

proof fn every_entry_is_looked_at(
    entries: Seq<(Entry, Result<JudgeSide, String>)>,
    upto: nat,
)
    requires
        upto <= entries.len(),
    ensures
        crate::judge_sides::entry_refusal(entries, upto) is None <==> forall|i: int|
            0 <= i < upto ==> ((#[trigger] entries[i]).1 matches Ok(side) && keys_say(
                entries[i].0,
                side,
            ) && keys_among(crate::judge_sides::keys_of(entries[i].0), fields_of(side))),
    decreases upto,
{
    if upto > 0 {
        every_entry_is_looked_at(entries, (upto - 1) as nat);
        an_entry_is_read_by_its_keys(entries[upto - 1].0, entries[upto - 1].1);
    }
}

/// A judge side written down reads back as itself: its mapping has the key that says its
/// shape, and of its other fields exactly those it was given.
pub proof fn a_written_judge_has_its_own_keys(side: &JudgeSide, entry: Entry)
    requires
        call_ensures(write_side, (side,), entry),
    ensures
        keys_say(entry, *side),
        keys_among(crate::judge_sides::keys_of(entry), fields_of(*side)),
        ({
            let keys = crate::judge_sides::keys_of(entry);
            match *side {
                JudgeSide::Harness(own) => (has_key(keys, "model"@) <==> own.model is Some) && (
                has_key(keys, "label"@) <==> own.label is Some),
                JudgeSide::Llmlint(own) => (has_key(keys, "config"@) <==> own.config is Some) && (
                has_key(keys, "bin"@) <==> own.bin is Some) && (has_key(keys, "diff_base"@)
                    <==> own.diff_base is Some) && (has_key(keys, "args"@) <==> own.args@.len() > 0)
                    && (has_key(keys, "label"@) <==> own.label is Some),
                JudgeSide::Command(own) => has_key(keys, "label"@) <==> own.label is Some,
            }
        }),
{
    reveal_strlit("oneharness_config");
    reveal_strlit("model");
    reveal_strlit("label");
    reveal_strlit("kind");
    reveal_strlit("config");
    reveal_strlit("bin");
    reveal_strlit("diff_base");
    reveal_strlit("args");
    reveal_strlit("command");
    assert("oneharness_config"@.len() == 17);
    assert("model"@[0] == 'm');
    assert("label"@[0] == 'l');
    assert("kind"@[0] == 'k');
    assert("config"@.len() == 6);
    assert("bin"@.len() == 3);
    assert("diff_base"@.len() == 9);
    assert("args"@[0] == 'a');
    assert("command"@.len() == 7);
    let keys = crate::judge_sides::keys_of(entry);
    let written = fields_written(*side);
    let known = fields_of(*side);
    assert(texts_of(keys) == written);
    assert forall|key: Seq<char>| #[trigger] has_key(keys, key) <==> written.contains(key) by {
        if has_key(keys, key) {
            let i = choose|i: int| 0 <= i < keys.len() && (#[trigger] keys[i])@ == key;
            assert(written[i] == key);
        }
        if written.contains(key) {
            let i = choose|i: int| 0 <= i < written.len() && written[i] == key;
            assert(keys[i]@ == key);
        }
    }
    what_is_written_is_known(*side);
    assert forall|i: int| 0 <= i < keys.len() implies known.contains((#[trigger] keys[i])@) by {
        assert(written[i] == keys[i]@);
        assert(written.contains(written[i]));
    }
}

proof fn what_is_written_is_known(side: JudgeSide)
    ensures
        forall|key: Seq<char>| #[trigger]
            fields_written(side).contains(key) <==> match side {
                JudgeSide::Harness(own) => key == "oneharness_config"@ || (key == "model"@
                    && own.model is Some) || (key == "label"@ && own.label is Some),
                JudgeSide::Llmlint(own) => key == "kind"@ || (key == "config"@
                    && own.config is Some) || (key == "bin"@ && own.bin is Some) || (key
                    == "diff_base"@ && own.diff_base is Some) || (key == "args"@ && own.args@.len()
                    > 0) || (key == "label"@ && own.label is Some),
                JudgeSide::Command(own) => key == "command"@ || (key == "label"@
                    && own.label is Some),
            },
        forall|key: Seq<char>| #[trigger]
            fields_written(side).contains(key) ==> fields_of(side).contains(key),
{
    let known = fields_of(side);
    assert forall|i: int| 0 <= i < known.len() implies known.contains(#[trigger] known[i]) by {}
    match side {
        JudgeSide::Harness(own) => {
            let first = seq!["oneharness_config"@];
            a_field_is_where_it_is_given(first, "model"@, own.model);
            let more = first + where_given("model"@, own.model);
            a_field_is_where_it_is_given(more, "label"@, own.label);
            one_is_itself("oneharness_config"@);
            assert(known[0] == "oneharness_config"@);
            assert(known[1] == "model"@);
            assert(known[2] == "label"@);
        },
        JudgeSide::Llmlint(own) => {
            let first = seq!["kind"@];
            one_is_itself("kind"@);
            a_field_is_where_it_is_given(first, "config"@, own.config);
            let second = first + where_given("config"@, own.config);
            a_field_is_where_it_is_given(second, "bin"@, own.bin);
            let third = second + where_given("bin"@, own.bin);
            a_field_is_where_it_is_given(third, "diff_base"@, own.diff_base);
            let fourth = third + where_given("diff_base"@, own.diff_base);
            let args = if own.args@.len() > 0 {
                seq!["args"@]
            } else {
                Seq::<Seq<char>>::empty()
            };
            one_is_itself("args"@);
            either_holds(fourth, args);
            let fifth = fourth + args;
            a_field_is_where_it_is_given(fifth, "label"@, own.label);
            assert(known[0] == "kind"@);
            assert(known[1] == "config"@);
            assert(known[2] == "bin"@);
            assert(known[3] == "diff_base"@);
            assert(known[4] == "args"@);
            assert(known[5] == "label"@);
        },
        JudgeSide::Command(own) => {
            one_is_itself("command"@);
            a_field_is_where_it_is_given(seq!["command"@], "label"@, own.label);
            assert(known[0] == "command"@);
            assert(known[1] == "label"@);
        },
    }
}

proof fn one_is_itself(one: Seq<char>)
    ensures
        forall|key: Seq<char>| #[trigger] seq![one].contains(key) <==> key == one,
{
    assert(seq![one][0] == one);
}

proof fn either_holds(first: Seq<Seq<char>>, second: Seq<Seq<char>>)
    ensures
        forall|key: Seq<char>| #[trigger]
            (first + second).contains(key) <==> first.contains(key) || second.contains(key),
{
    let whole = first + second;
    assert forall|key: Seq<char>| #[trigger] (first + second).contains(key) <==> first.contains(key)
        || second.contains(key) by {
        if first.contains(key) {
            let i = choose|i: int| 0 <= i < first.len() && first[i] == key;
            assert(whole[i] == key);
        }
        if second.contains(key) {
            let i = choose|i: int| 0 <= i < second.len() && second[i] == key;
            assert(whole[first.len() + i] == key);
        }
        if whole.contains(key) {
            let i = choose|i: int| 0 <= i < whole.len() && whole[i] == key;
            if i < first.len() {
                assert(first[i] == key);
            } else {
                assert(second[i - first.len()] == key);
            }
        }
    }
}

proof fn a_field_is_where_it_is_given(before: Seq<Seq<char>>, name: Seq<char>, value: Option<String>)
    ensures
        forall|key: Seq<char>| #[trigger]
            (before + where_given(name, value)).contains(key) <==> before.contains(key) || (key
                == name && value is Some),
{
    either_holds(before, where_given(name, value));
    one_is_itself(name);
}

/// One judge is written as its own mapping and any other number as a list, in order, of
/// what each is written as.
pub proof fn a_judge_list_is_written_in_order(sides: Vec<JudgeSide>, written: Written)
    requires
        call_ensures(write_judges, (sides,), written),
    ensures
        written is One <==> sides@.len() == 1,
        !(written is Neither),
        written matches Written::One(entry, read) ==> keys_say(entry, sides@[0]) && read == Ok::<
            JudgeSide,
            String,
        >(sides@[0]),
        written matches Written::List(entries) ==> entries@.len() == sides@.len() && forall|i: int|
            0 <= i < sides@.len() ==> (#[trigger] entries@[i]).1 == Ok::<JudgeSide, String>(
                sides@[i],
            ) && keys_say(entries@[i].0, sides@[i]),
{
    match written {
        Written::One(entry, _) => {
            its_keys_say_its_shape(entry, sides@[0]);
        },
        Written::List(entries) => {
            assert forall|i: int| 0 <= i < sides@.len() implies (#[trigger] entries@[i]).1 == Ok::<
                JudgeSide,
                String,
            >(sides@[i]) && keys_say(entries@[i].0, sides@[i]) by {
                its_keys_say_its_shape(entries@[i].0, sides@[i]);
            }
        },
        _ => {},
    }
}

proof fn its_keys_say_its_shape(entry: Entry, side: JudgeSide)
    requires
        crate::judge_sides::writes_side(entry, side),
    ensures
        keys_say(entry, side),
{
    reveal_strlit("oneharness_config");
    reveal_strlit("kind");
    reveal_strlit("config");
    reveal_strlit("bin");
    reveal_strlit("diff_base");
    reveal_strlit("args");
    reveal_strlit("label");
    reveal_strlit("command");
    assert("oneharness_config"@.len() == 17);
    let keys = crate::judge_sides::keys_of(entry);
    let written = fields_written(side);
    what_is_written_is_known(side);
    assert(texts_of(keys) == written);
    if has_key(keys, "oneharness_config"@) {
        let i = choose|i: int| 0 <= i < keys.len() && (#[trigger] keys[i])@ == "oneharness_config"@;
        assert(written[i] == "oneharness_config"@);
        assert(written.contains("oneharness_config"@));
    }
    match side {
        JudgeSide::Harness(_) => {
            assert(written[0] == "oneharness_config"@);
            assert(keys[0]@ == "oneharness_config"@);
        },
        JudgeSide::Command(_) => {
            assert(written[0] == "command"@);
            assert(keys[0]@ == "command"@);
        },
        _ => {},
    }
}

/// A judge's label is the one it was given, and its kind is its shape's.
pub proof fn a_judge_is_known_by_its_shape(
    side: &JudgeSide,
    label: &Option<String>,
    kind: &'static str,
)
    requires
        call_ensures(JudgeSide::label, (side,), label),
        call_ensures(JudgeSide::kind, (side,), kind),
    ensures
        side matches JudgeSide::Harness(own) ==> *label == own.label && kind@ == "oneharness"@,
        side matches JudgeSide::Llmlint(own) ==> *label == own.label && kind@ == "llmlint"@,
        side matches JudgeSide::Command(own) ==> *label == own.label && kind@ == "command"@,
{
}

// ---- A provider's request ----
/// A request is read field by field: a text where a text stands, a bound where a count
/// does, messages where a list does, and nothing of any other kind.
pub proof fn a_request_is_read_field_by_field(
    raw: &str,
    request: Result<Request, String>,
    op: Result<Node, String>,
    persona: Result<Node, String>,
    kind: Result<Node, String>,
    max: Result<Node, String>,
    messages: Result<Node, String>,
)
    requires
        call_ensures(read_request, (raw,), request),
        call_ensures(node_at, (raw, "/op"), op),
        call_ensures(node_at, (raw, "/persona"), persona),
        call_ensures(node_at, (raw, "/kind"), kind),
        call_ensures(node_at, (raw, "/max"), max),
        call_ensures(node_at, (raw, "/messages"), messages),
    ensures
        request is Ok <==> op is Ok,
        request matches Ok(asked) ==> {
            &&& says_text(op, asked.op)
            &&& says_text(persona, asked.persona)
            &&& says_text(kind, asked.kind)
            &&& match max {
                Ok(Node::Count(count)) => asked.max == Some(count),
                _ => asked.max is None,
            }
            &&& match messages {
                Ok(Node::List(count)) => asked.messages matches Some(list) && list@.len() == count,
                _ => asked.messages is None,
            }
        },
{
}

/// Whether what was read of a place is the text that stands there.
pub open spec fn says_text(node: Result<Node, String>, found: Option<String>) -> bool {
    match node {
        Ok(Node::Text(text)) => found matches Some(own) && own@ == text@,
        _ => found is None,
    }
}

/// Each message is read from its own place of the list.
pub proof fn a_message_is_read_from_its_place(
    raw: &str,
    request: Request,
    at: nat,
    role_place: &str,
    role: Result<Node, String>,
    content_place: &str,
    content: Result<Node, String>,
)
    requires
        call_ensures(read_request, (raw,), Ok::<Request, String>(request)),
        request.messages matches Some(list) && at < list@.len(),
        role_place@ == "/messages/"@ + decimal(at) + "/"@ + "role"@,
        call_ensures(node_at, (raw, role_place), role),
        content_place@ == "/messages/"@ + decimal(at) + "/"@ + "content"@,
        call_ensures(node_at, (raw, content_place), content),
    ensures
        says_text(role, request.messages->0@[at as int].role),
        says_text(content, request.messages->0@[at as int].content),
{
    let message = request.messages->0@[at as int];
    assert(text_of(message.role) == crate::fake_provider::text_at(
        crate::json_read::json_node(raw@, role_place@),
    ));
}

/// A blocker can be retried exactly where one sentence of the persona both says that it is
/// not terminal and names it.
pub proof fn a_blocker_is_retried_where_one_sentence_says_so(
    persona: &str,
    blocker: &str,
    answer: bool,
    line: String,
    spread: &str,
    sentences: Vec<String>,
)
    requires
        call_ensures(retryable, (persona, blocker), answer),
        call_ensures(collapse, (persona,), line),
        spread@ == line@,
        call_ensures(split, (spread, ". "), sentences),
    ensures
        answer <==> exists|i: int|
            0 <= i < sentences@.len() && occurs((#[trigger] sentences@[i])@, "not terminal"@)
                && occurs(sentences@[i]@, blocker@),
{
    let parts = crate::search::pieces(line@, ". "@);
    assert(texts_of(sentences@) == parts);
    assert forall|i: int| 0 <= i < parts.len() implies #[trigger] parts[i] == sentences@[i]@ by {}
    if answer {
        let i = choose|i: int|
            0 <= i < parts.len() && holds(#[trigger] parts[i], "not terminal"@) && holds(
                parts[i],
                blocker@,
            );
        a_search_is_exact(parts[i], "not terminal"@);
        a_search_is_exact(parts[i], blocker@);
        assert(sentences@[i]@ == parts[i]);
    }
    if exists|i: int|
        0 <= i < sentences@.len() && occurs((#[trigger] sentences@[i])@, "not terminal"@) && occurs(
            sentences@[i]@,
            blocker@,
        ) {
        let i = choose|i: int|
            0 <= i < sentences@.len() && occurs((#[trigger] sentences@[i])@, "not terminal"@)
                && occurs(sentences@[i]@, blocker@);
        a_search_is_exact(sentences@[i]@, "not terminal"@);
        a_search_is_exact(sentences@[i]@, blocker@);
        assert(parts[i] == sentences@[i]@);
    }
}

} // verus!
