//! The task prose a member is given: its own, with the run's interpolated where it
//! names it, or the run's.

use vstd::prelude::*;
use vstd::string::StringExecFns;

use crate::config::TaskText;
use crate::error::{answers, Error};
use crate::text::{characters, text_of};

verus! {

/// What a member's own task names the run's task with.
pub const TASK_TOKEN: &'static str = "{task}";

/// The whole escape mechanism: the literal text of [`TASK_TOKEN`].
pub const ESCAPED_TASK_TOKEN: &'static str = "{{task}}";

/// Whether `text` begins with `prefix`.
pub open spec fn begins(text: Seq<char>, prefix: Seq<char>) -> bool {
    prefix.len() <= text.len() && text.take(prefix.len() as int) == prefix
}

/// One member's own task prose, with `given` in place of each token and the token
/// itself in place of each escaped one. Any other brace is a brace.
pub open spec fn expanded(template: Seq<char>, given: Seq<char>) -> Seq<char>
    decreases template.len(),
{
    if template.len() == 0 {
        seq![]
    } else if begins(template, ESCAPED_TASK_TOKEN@) && ESCAPED_TASK_TOKEN@.len() > 0 {
        TASK_TOKEN@ + expanded(template.skip(ESCAPED_TASK_TOKEN@.len() as int), given)
    } else if begins(template, TASK_TOKEN@) && TASK_TOKEN@.len() > 0 {
        given + expanded(template.skip(TASK_TOKEN@.len() as int), given)
    } else {
        seq![template[0]] + expanded(template.drop_first(), given)
    }
}

/// Whether `all` holds `token` at `at`.
pub(crate) fn holds_at(all: &Vec<char>, at: usize, token: &Vec<char>) -> (found: bool)
    requires
        at <= all@.len(),
    ensures
        found == begins(all@.skip(at as int), token@),
{
    let length: usize = all.len();
    if token.len() > length - at {
        return false;
    }
    let ghost rest = all@.skip(at as int);
    let mut seen: usize = 0;
    while seen < token.len()
        invariant
            rest == all@.skip(at as int),
            seen <= token@.len() <= rest.len(),
            length == all@.len(),
            at + token@.len() <= length,
            forall|i: int| 0 <= i < seen ==> rest[i] == token@[i],
        decreases token@.len() - seen,
    {
        if all[at + seen] != token[seen] {
            assert(rest[seen as int] != token@[seen as int]);
            assert(rest.take(token@.len() as int)[seen as int] == rest[seen as int]);
            return false;
        }
        seen = seen + 1;
    }
    assert(rest.take(token@.len() as int) =~= token@);
    true
}

/// One member's own task prose, with the run's `--task` interpolated into it.
///
/// A run that supplied none expands the token to nothing rather than refusing: a
/// member carrying its own task is the one shape that never needed a `--task`.
pub fn expand_task(template: &str, given: &str) -> (text: String)
    ensures
        text@ == expanded(template@, given@),
{
    let all = characters(template);
    let token = characters(TASK_TOKEN);
    let escaped = characters(ESCAPED_TASK_TOKEN);
    proof {
        reveal_strlit("{task}");
        reveal_strlit("{{task}}");
    }
    let mut text = String::new();
    let mut at: usize = 0;
    assert(all@.skip(0) =~= all@);
    assert(text@ + expanded(template@, given@) =~= expanded(template@, given@));
    while at < all.len()
        invariant
            at <= all@.len(),
            token@ == TASK_TOKEN@,
            escaped@ == ESCAPED_TASK_TOKEN@,
            token@.len() == 6,
            escaped@.len() == 8,
            expanded(template@, given@) == text@ + expanded(all@.skip(at as int), given@),
        decreases all@.len() - at,
    {
        let ghost rest = all@.skip(at as int);
        let ghost was = text@;
        if holds_at(&all, at, &escaped) {
            text.append(TASK_TOKEN);
            assert(rest.skip(8) =~= all@.skip(at + 8));
            assert(text@ + expanded(rest.skip(8), given@) =~= was + expanded(rest, given@));
            at = at + 8;
        } else if holds_at(&all, at, &token) {
            text.append(given);
            assert(rest.skip(6) =~= all@.skip(at + 6));
            assert(text@ + expanded(rest.skip(6), given@) =~= was + expanded(rest, given@));
            at = at + 6;
        } else {
            text.push(all[at]);
            assert(rest.drop_first() =~= all@.skip(at + 1));
            assert(text@ + expanded(rest.drop_first(), given@) =~= was + expanded(
                rest,
                given@,
            ));
            at = at + 1;
        }
    }
    assert(all@.skip(at as int) =~= seq![]);
    assert(text@ + expanded(all@.skip(at as int), given@) =~= text@);
    text
}

/// The refusal for a member that needs a task and was given none.
pub open spec fn no_task() -> Seq<char> {
    "no task: supply one with --task/--task-file, or give the member its own `task`"@
}

/// The task prose a member is given, when there is any.
pub open spec fn task_of(
    own: Option<Seq<char>>,
    given: Option<Seq<char>>,
    reading: TaskText,
) -> Option<Seq<char>> {
    match own {
        Some(own) => Some(
            if reading is Literal {
                own
            } else {
                expanded(
                    own,
                    match given {
                        Some(given) => given,
                        None => ""@,
                    },
                )
            },
        ),
        None => given,
    }
}

/// The task prose one member is given, or the refusal for a member that needs one.
///
/// Under a schema that predates the token a member's own task is the prose it has
/// always been. The run's own task is prose too: a member that named none is
/// handed it as it is.
pub fn member_task(own: &Option<String>, given: Option<&str>, reading: TaskText) -> (task: Result<
    String,
    Error,
>)
    ensures
        match task_of(text_of(*own), crate::anchor::seen(given), reading) {
            Some(text) => task matches Ok(prose) && prose@ == text,
            None => answers(task, Some(no_task())),
        },
{
    match own {
        Some(own) => match reading {
            TaskText::Literal => Ok(own.clone()),
            TaskText::Template => Ok(
                expand_task(
                    own.as_str(),
                    match given {
                        Some(given) => given,
                        None => "",
                    },
                ),
            ),
        },
        None => match given {
            Some(given) => Ok(String::from_str(given)),
            None => Err(
                Error::InvalidConfig(
                    String::from_str(
                        "no task: supply one with --task/--task-file, or give the member its own `task`",
                    ),
                ),
            ),
        },
    }
}

/// Prose with no brace in it is what the member is given, whatever the run's task.
pub proof fn prose_without_a_brace_is_untouched(template: Seq<char>, given: Seq<char>)
    requires
        forall|i: int| 0 <= i < template.len() ==> template[i] != '{',
    ensures
        expanded(template, given) == template,
    decreases template.len(),
{
    reveal_strlit("{task}");
    reveal_strlit("{{task}}");
    if template.len() > 0 {
        if begins(template, TASK_TOKEN@) {
            assert(template.take(6)[0] == TASK_TOKEN@[0]);
        }
        if begins(template, ESCAPED_TASK_TOKEN@) {
            assert(template.take(8)[0] == ESCAPED_TASK_TOKEN@[0]);
        }
        prose_without_a_brace_is_untouched(template.drop_first(), given);
        assert(seq![template[0]] + template.drop_first() =~= template);
    } else {
        assert(expanded(template, given) =~= template);
    }
}

/// The token at the head of a task is the run's own task, followed by whatever the
/// rest of the prose comes to.
pub proof fn the_token_is_the_runs_task(rest: Seq<char>, given: Seq<char>)
    ensures
        expanded(TASK_TOKEN@ + rest, given) == given + expanded(rest, given),
{
    reveal_strlit("{task}");
    reveal_strlit("{{task}}");
    let template = TASK_TOKEN@ + rest;
    assert(template.take(6) =~= TASK_TOKEN@);
    assert(template.skip(6) =~= rest);
    if begins(template, ESCAPED_TASK_TOKEN@) {
        assert(template.take(8)[1] == ESCAPED_TASK_TOKEN@[1]);
        assert(template[1] == TASK_TOKEN@[1]);
    }
}

/// The escaped token is the token's own text, whatever the run's task.
pub proof fn the_escaped_token_is_the_tokens_text(rest: Seq<char>, given: Seq<char>)
    ensures
        expanded(ESCAPED_TASK_TOKEN@ + rest, given) == TASK_TOKEN@ + expanded(rest, given),
{
    reveal_strlit("{task}");
    reveal_strlit("{{task}}");
    let template = ESCAPED_TASK_TOKEN@ + rest;
    assert(template.take(8) =~= ESCAPED_TASK_TOKEN@);
    assert(template.skip(8) =~= rest);
}

/// Under a schema that predates the token, and where the member named no task of
/// its own, the prose reaches the member character for character.
pub proof fn prose_is_prose(own: Seq<char>, given: Option<Seq<char>>)
    ensures
        task_of(Some(own), given, TaskText::Literal) == Some(own),
        task_of(None, given, TaskText::Template) == given,
        task_of(None, given, TaskText::Literal) == given,
{
}

} // verus!
