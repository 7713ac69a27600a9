//! Which graphs are accepted, said of what a graph's author wrote.

use vstd::prelude::*;

use crate::config::{
    is_judge_label, is_member_name, validate, GraphConfig, JudgeSide, Member, OneharnessMember,
    OnejudgeMember, PreTurn, Schedule, TaskText,
};
use crate::error::Error;
use crate::stream_laws::usable;
use crate::text::{quoted, white_space};
use crate::validation::{
    command_judge_refusal, command_refusal, env_refusal, first_view_refusal, graph_refusal,
    judge_refusal, member_refusal, members_refusal, nul_word, panel_refusal, variable_refusal,
    view_refusal,
};

verus! {

// ---- What is asked of each part ----
/// Whether a text says something: it holds a character that is no white space.
pub open spec fn says(text: Seq<char>) -> bool {
    exists|i: int| 0 <= i < text.len() && !white_space(#[trigger] text[i])
}

/// Whether a name is one path component that stays where it is put: letters, digits,
/// hyphens and underscores, and at least one of them.
pub open spec fn one_component(name: Seq<char>) -> bool {
    name.len() > 0 && forall|i: int|
        0 <= i < name.len() ==> {
            let character = #[trigger] name[i];
            ||| '0' <= character <= '9'
            ||| 'A' <= character <= 'Z'
            ||| 'a' <= character <= 'z'
            ||| character == '-'
            ||| character == '_'
        }
}

/// Whether a text holds no NUL.
pub open spec fn nulless(text: Seq<char>) -> bool {
    forall|i: int| 0 <= i < text.len() ==> #[trigger] text[i] != '\0'
}

/// Whether a command can be spawned: its first word names a program, and none of its
/// words holds a NUL.
pub open spec fn spawnable(command: Seq<String>) -> bool {
    &&& command.len() > 0
    &&& says(command[0]@)
    &&& forall|i: int| 0 <= i < command.len() ==> nulless((#[trigger] command[i])@)
}

/// Whether a judge can be composed.
pub open spec fn composable(judge: JudgeSide) -> bool {
    match judge {
        JudgeSide::Harness(side) => side.label matches Some(label) ==> one_component(label@),
        JudgeSide::Llmlint(side) => side.label matches Some(label) ==> one_component(label@),
        JudgeSide::Command(side) => spawnable(side.command@) && (side.label matches Some(label)
            ==> one_component(label@)),
    }
}

/// Whether a schedule can pace a member under a schema: it fires, neither of its spans is
/// past the ceiling, and it names a first wait only where the schema has one.
pub open spec fn paceable(schedule: Schedule, schema: u32) -> bool {
    &&& 1 <= schedule.every <= 4_294_967_295
    &&& schedule.start_after matches Some(seconds) ==> schema >= 4 && seconds <= 4_294_967_295
}

/// Whether a pre-turn view can be run.
pub open spec fn viewable(view: PreTurn) -> bool {
    &&& spawnable(view.command@)
    &&& view.label matches Some(label) ==> says(label@) && forall|i: int|
        0 <= i < label@.len() ==> !((#[trigger] label@[i] as u32) < 0x20 || 0x7f
            <= label@[i] as u32 <= 0x9f)
    &&& view.timeout matches Some(seconds) ==> 1 <= seconds <= 300
}

/// Whether a two-party member can be run under a schema.
pub open spec fn two_party_runs(member: OnejudgeMember, schema: u32) -> bool {
    &&& says(member.mode@)
    &&& member.max_turns != Some(0u32)
    &&& member.judge@.len() > 0
    &&& forall|i: int| 0 <= i < member.judge@.len() ==> composable(#[trigger] member.judge@[i])
    &&& member.dir matches Some(dir) ==> schema >= 9 && dir@.len() > 0
    &&& member.schedule matches Some(schedule) ==> schema >= 9 && paceable(schedule, schema)
    &&& member.deps@.len() > 0 ==> schema >= 2
    &&& member.background is Some ==> schema >= 8
}

/// Whether a single-sided member can be run under a schema.
pub open spec fn single_sided_runs(member: OneharnessMember, schema: u32) -> bool {
    &&& member.task matches Some(task) ==> schema >= 3 && says(task@)
    &&& member.dir matches Some(dir) ==> schema >= 3 && dir@.len() > 0
    &&& member.pre_turn@.len() > 0 ==> schema >= 7
    &&& member.pre_turn@.len() <= 4
    &&& forall|i: int|
        0 <= i < member.pre_turn@.len() ==> viewable(#[trigger] member.pre_turn@[i])
    &&& member.schedule matches Some(schedule) ==> paceable(schedule, schema)
    &&& member.background is Some ==> schema >= 8
}

/// Whether a member can be run under a schema.
pub open spec fn member_runs(name: Seq<char>, member: Member, schema: u32) -> bool {
    &&& one_component(name)
    &&& match member {
        Member::Onejudge(member) => two_party_runs(member, schema),
        Member::Oneharness(member) => single_sided_runs(member, schema),
    }
}

/// Whether a variable can be exported.
pub open spec fn exportable(key: Seq<char>, value: Seq<char>) -> bool {
    &&& key.len() > 0
    &&& forall|i: int| 0 <= i < key.len() ==> #[trigger] key[i] != '='
    &&& nulless(key)
    &&& nulless(value)
}

/// Whether everything of a graph but its members is sound.
pub open spec fn frame_runs(graph: GraphConfig) -> bool {
    &&& 1 <= graph.version <= 9
    &&& says(graph.name@)
    &&& graph.members@.len() > 0
    &&& forall|i: int|
        0 <= i < graph.env@.len() ==> exportable(
            (#[trigger] graph.env@[i]).0@,
            graph.env@[i].1@,
        )
    &&& graph.personas matches Some(root) ==> graph.version >= 6 && root@.len() > 0
    &&& graph.events matches Some(events) ==> graph.version >= 5 && (events.filter matches Some(
        filter,
    ) ==> (forall|i: int|
        0 <= i < filter.included@.len() ==> usable(#[trigger] filter.included@[i])) && (forall|
        i: int,
    |
        0 <= i < filter.excluded@.len() ==> usable(#[trigger] filter.excluded@[i])))
}

/// Whether a graph can be run.
pub open spec fn graph_runs(graph: GraphConfig) -> bool {
    &&& frame_runs(graph)
    &&& forall|i: int|
        0 <= i < graph.members@.len() ==> member_runs(
            (#[trigger] graph.members@[i]).0@,
            graph.members@[i].1,
            graph.version,
        )
}

// ---- The laws ----
proof fn a_nul_word_is_found(command: Seq<String>)
    ensures
        nul_word(command) is None <==> forall|i: int|
            0 <= i < command.len() ==> nulless((#[trigger] command[i])@),
    decreases command.len(),
{
    if command.len() > 0 {
        let rest = command.drop_first();
        a_nul_word_is_found(rest);
        if nul_word(command) is None {
            assert forall|i: int| 0 <= i < command.len() implies nulless(
                (#[trigger] command[i])@,
            ) by {
                if i > 0 {
                    assert(nulless(rest[i - 1]@));
                }
            }
        }
        if forall|i: int| 0 <= i < command.len() ==> nulless((#[trigger] command[i])@) {
            assert(nulless(command[0]@));
            assert forall|i: int| 0 <= i < rest.len() implies nulless((#[trigger] rest[i])@) by {
                assert(nulless(command[i + 1]@));
            }
        }
    }
}

proof fn a_command_is_refused_exactly_where_it_cannot_be_spawned(command: Seq<String>)
    ensures
        command_refusal(command) is None <==> spawnable(command),
{
    a_nul_word_is_found(command);
}

/// A command judge's command is refused exactly where it cannot be spawned.
pub proof fn a_command_judge_needs_a_command(command: &Vec<String>, refusal: Option<String>)
    requires
        call_ensures(command_judge_refusal, (command,), refusal),
    ensures
        refusal is None <==> spawnable(command@),
{
    a_command_is_refused_exactly_where_it_cannot_be_spawned(command@);
}

proof fn a_plain_name_is_one_component(name: Seq<char>)
    ensures
        crate::text::plain_name(name) <==> one_component(name),
{
}

proof fn a_judge_is_refused_exactly_where_it_cannot_be_composed(
    name: Seq<char>,
    entry: nat,
    judge: JudgeSide,
)
    ensures
        judge_refusal(name, entry, judge) is None <==> composable(judge),
{
    if let JudgeSide::Command(side) = judge {
        a_command_is_refused_exactly_where_it_cannot_be_spawned(side.command@);
    }
    if let Some(label) = judge.labelled() {
        a_plain_name_is_one_component(label@);
    }
}

proof fn every_judge_is_composable(name: Seq<char>, judges: Seq<JudgeSide>, upto: nat)
    requires
        upto <= judges.len(),
    ensures
        panel_refusal(name, judges, upto) is None <==> forall|i: int|
            0 <= i < upto ==> composable(#[trigger] judges[i]),
    decreases upto,
{
    if upto > 0 {
        every_judge_is_composable(name, judges, (upto - 1) as nat);
        a_judge_is_refused_exactly_where_it_cannot_be_composed(name, upto, judges[upto - 1]);
    }
}

proof fn a_view_is_refused_exactly_where_it_cannot_be_run(name: Seq<char>, at: nat, view: PreTurn)
    ensures
        view_refusal(name, at, view) is None <==> viewable(view),
{
    a_nul_word_is_found(view.command@);
    if let Some(label) = view.label {
        if crate::validation::holds_control(label@) {
            let i = choose|i: int|
                0 <= i < label@.len() && crate::validation::control(#[trigger] label@[i]);
            assert((label@[i] as u32) < 0x20 || 0x7f <= label@[i] as u32 <= 0x9f);
        } else {
            assert forall|i: int| 0 <= i < label@.len() implies !((#[trigger] label@[i] as u32)
                < 0x20 || 0x7f <= label@[i] as u32 <= 0x9f) by {
                assert(!crate::validation::control(label@[i]));
            }
        }
    }
}

proof fn every_view_is_viewable(name: Seq<char>, views: Seq<PreTurn>, upto: nat)
    requires
        upto <= views.len(),
    ensures
        first_view_refusal(name, views, upto) is None <==> forall|i: int|
            0 <= i < upto ==> viewable(#[trigger] views[i]),
    decreases upto,
{
    if upto > 0 {
        every_view_is_viewable(name, views, (upto - 1) as nat);
        a_view_is_refused_exactly_where_it_cannot_be_run(
            name,
            (upto - 1) as nat,
            views[upto - 1],
        );
    }
}

proof fn a_member_is_refused_exactly_where_it_cannot_run(
    name: Seq<char>,
    member: Member,
    schema: u32,
)
    requires
        1 <= schema <= 9,
    ensures
        member_refusal(name, member, schema) is None <==> member_runs(name, member, schema),
        member_refusal(name, member, schema) matches Some(why) ==> names_member(why, name),
{
    a_plain_name_is_one_component(name);
    reveal_strlit("member ");
    reveal_strlit("member name ");
    match member {
        Member::Onejudge(member) => {
            every_judge_is_composable(name, member.judge@, member.judge@.len());
            the_panel_names_its_member(name, member.judge@, member.judge@.len());
        },
        Member::Oneharness(member) => {
            every_view_is_viewable(name, member.pre_turn@, member.pre_turn@.len());
            the_views_name_their_member(name, member.pre_turn@, member.pre_turn@.len());
        },
    }
    if let Some(why) = member_refusal(name, member, schema) {
        if !crate::text::plain_name(name) && !(schema == 1 && member is Onejudge
            && member.waits_for().len() > 0) {
            let front = "member name "@ + quoted(name);
            assert(why.take(front.len() as int) =~= front);
            assert(names_member(why, name));
        } else {
            assert(exists|said: Seq<char>| why == #[trigger] crate::validation::of_member(
                name,
                said,
            ));
            let said = choose|said: Seq<char>| why == #[trigger] crate::validation::of_member(
                name,
                said,
            );
            something_said_names_its_member(name, said);
        }
    }
}

/// Whether a refusal names the member it is about.
pub open spec fn names_member(why: Seq<char>, name: Seq<char>) -> bool {
    let front = "member "@ + quoted(name);
    let named = "member name "@ + quoted(name);
    ||| why.len() >= front.len() && why.take(front.len() as int) == front
    ||| why.len() >= named.len() && why.take(named.len() as int) == named
}

proof fn something_said_names_its_member(name: Seq<char>, said: Seq<char>)
    ensures
        names_member(crate::validation::of_member(name, said), name),
{
    let front = "member "@ + quoted(name);
    let why = crate::validation::of_member(name, said);
    assert(why.take(front.len() as int) =~= front);
}

proof fn the_panel_names_its_member(name: Seq<char>, judges: Seq<JudgeSide>, upto: nat)
    requires
        upto <= judges.len(),
    ensures
        panel_refusal(name, judges, upto) matches Some(why) ==> exists|said: Seq<char>| why
            == #[trigger] crate::validation::of_member(name, said),
    decreases upto,
{
    if upto > 0 {
        the_panel_names_its_member(name, judges, (upto - 1) as nat);
    }
}

proof fn the_views_name_their_member(name: Seq<char>, views: Seq<PreTurn>, upto: nat)
    requires
        upto <= views.len(),
    ensures
        first_view_refusal(name, views, upto) matches Some(why) ==> exists|said: Seq<char>| why
            == #[trigger] crate::validation::of_member(name, said),
    decreases upto,
{
    if upto > 0 {
        the_views_name_their_member(name, views, (upto - 1) as nat);
    }
}

proof fn every_member_runs(members: Seq<(String, Member)>, schema: u32, upto: nat)
    requires
        upto <= members.len(),
        1 <= schema <= 9,
    ensures
        members_refusal(members, schema, upto) is None <==> forall|i: int|
            0 <= i < upto ==> member_runs((#[trigger] members[i]).0@, members[i].1, schema),
        members_refusal(members, schema, upto) matches Some(why) ==> exists|at: int|
            0 <= at < upto && !member_runs((#[trigger] members[at]).0@, members[at].1, schema)
                && names_member(why, members[at].0@) && forall|i: int|
                0 <= i < at ==> member_runs((#[trigger] members[i]).0@, members[i].1, schema),
    decreases upto,
{
    if upto > 0 {
        every_member_runs(members, schema, (upto - 1) as nat);
        let last = members[upto - 1];
        a_member_is_refused_exactly_where_it_cannot_run(last.0@, last.1, schema);
        if members_refusal(members, schema, (upto - 1) as nat) is None && member_refusal(
            last.0@,
            last.1,
            schema,
        ) is Some {
            assert(!member_runs(members[upto - 1].0@, members[upto - 1].1, schema));
        }
    }
}

proof fn a_variable_is_refused_exactly_where_it_cannot_be_exported(key: Seq<char>, value: Seq<char>)
    ensures
        variable_refusal(key, value) is None <==> exportable(key, value),
{
}

proof fn every_variable_is_exportable(env: Seq<(String, String)>, upto: nat)
    requires
        upto <= env.len(),
    ensures
        env_refusal(env, upto) is None <==> forall|i: int|
            0 <= i < upto ==> exportable((#[trigger] env[i]).0@, env[i].1@),
    decreases upto,
{
    if upto > 0 {
        every_variable_is_exportable(env, (upto - 1) as nat);
        a_variable_is_refused_exactly_where_it_cannot_be_exported(
            env[upto - 1].0@,
            env[upto - 1].1@,
        );
    }
}

proof fn a_frame_is_looked_at(graph: GraphConfig)
    ensures
        graph_refusal(graph) is None <==> graph_runs(graph),
        frame_runs(graph) ==> graph_refusal(graph) == members_refusal(
            graph.members@,
            graph.version,
            graph.members@.len(),
        ),
{
    every_variable_is_exportable(graph.env@, graph.env@.len());
    if let Some(events) = graph.events {
        if let Some(filter) = events.filter {
            crate::stream_laws::a_filter_is_refused_over_a_matcher(filter);
        }
    }
    if 1 <= graph.version <= 9 {
        every_member_runs(graph.members@, graph.version, graph.members@.len());
    }
}

/// A graph is accepted exactly where everything its author wrote could be run: nothing
/// else is refused, and nothing that could not be run is let through. A refusal is always
/// that of an invalid config.
pub proof fn a_graph_is_accepted_exactly_where_it_can_run(
    graph: &GraphConfig,
    outcome: Result<(), Error>,
)
    requires
        call_ensures(validate, (graph,), outcome),
    ensures
        outcome is Ok <==> graph_runs(*graph),
        outcome matches Err(error) ==> error is InvalidConfig,
{
    a_frame_is_looked_at(*graph);
}

/// A graph refused over one of its members is refused naming the first that cannot be
/// run.
pub proof fn a_refusal_names_the_first_member_that_cannot_run(graph: &GraphConfig, error: Error)
    requires
        call_ensures(validate, (graph,), Err(error)),
        frame_runs(*graph),
    ensures
        error matches Error::InvalidConfig(why) && exists|at: int|
            0 <= at < graph.members@.len() && !member_runs(
                (#[trigger] graph.members@[at]).0@,
                graph.members@[at].1,
                graph.version,
            ) && names_member(why@, graph.members@[at].0@) && forall|i: int|
                0 <= i < at ==> member_runs(
                    (#[trigger] graph.members@[i]).0@,
                    graph.members@[i].1,
                    graph.version,
                ),
{
    a_frame_is_looked_at(*graph);
    every_member_runs(graph.members@, graph.version, graph.members@.len());
}

/// A graph whose filter holds only usable matchers is not refused for its events, under
/// any schema that has them: whether it is accepted is then a matter of the rest of it.
pub proof fn usable_matchers_are_no_reason_to_refuse(
    graph: &GraphConfig,
    outcome: Result<(), Error>,
    without: &GraphConfig,
    other: Result<(), Error>,
)
    requires
        call_ensures(validate, (graph,), outcome),
        call_ensures(validate, (without,), other),
        graph.version >= 5,
        graph.events matches Some(events) && events.filter matches Some(filter) && (forall|i: int|
            0 <= i < filter.included@.len() ==> usable(#[trigger] filter.included@[i])) && (forall|
            i: int,
        |
            0 <= i < filter.excluded@.len() ==> usable(#[trigger] filter.excluded@[i])),
        without.events is None,
        without.version == graph.version,
        without.name == graph.name,
        without.env == graph.env,
        without.personas == graph.personas,
        without.members == graph.members,
    ensures
        outcome is Ok <==> other is Ok,
{
    a_frame_is_looked_at(*graph);
    a_frame_is_looked_at(*without);
}

/// A member's name, and a judge's label, is one path component.
pub proof fn a_name_is_one_component(name: &str, member: bool, judge: bool)
    requires
        call_ensures(is_member_name, (name,), member),
        call_ensures(is_judge_label, (name,), judge),
    ensures
        member <==> one_component(name@),
        judge <==> one_component(name@),
{
    a_plain_name_is_one_component(name@);
}

/// A member's first turn waits as long as its schedule names, and otherwise a whole
/// interval from the fourth schema on and not at all before it.
pub proof fn a_first_turn_waits_as_its_schedule_says(schedule: &Schedule, schema: u32, seconds: u64)
    requires
        call_ensures(Schedule::first_turn_after, (schedule, schema), seconds),
    ensures
        schedule.start_after matches Some(named) ==> seconds == named,
        schedule.start_after is None && schema >= 4 ==> seconds == schedule.every,
        schedule.start_after is None && schema < 4 ==> seconds == 0,
{
}

/// A view may run for as long as it names, and for thirty seconds otherwise; it is called
/// by its label, and by its program otherwise.
pub proof fn a_view_has_a_bound_and_a_name(view: &PreTurn, seconds: u64, name: &str)
    requires
        call_ensures(PreTurn::seconds, (view,), seconds),
        call_ensures(PreTurn::view, (view,), name),
    ensures
        view.timeout matches Some(named) ==> seconds == named,
        view.timeout is None ==> seconds == 30,
        view.label matches Some(label) ==> name@ == label@,
        view.label is None && view.command@.len() > 0 ==> name@ == view.command@[0]@,
        view.label is None && view.command@.len() == 0 ==> name@.len() == 0,
{
    reveal_strlit("");
}

/// A member's own task is a template from the fourth schema on, and prose before it.
pub proof fn a_task_is_a_template_from_its_schema_on(schema: u32, reading: TaskText)
    requires
        call_ensures(TaskText::under, (schema,), reading),
    ensures
        reading is Template <==> schema >= 4,
        reading is Literal <==> schema < 4,
{
}

/// Where the first member of a name stands.
pub open spec fn stands_at(graph: GraphConfig, name: Seq<char>, at: int) -> bool {
    &&& 0 <= at < graph.members@.len()
    &&& graph.members@[at].0@ == name
    &&& forall|i: int| 0 <= i < at ==> (#[trigger] graph.members@[i]).0@ != name
}

proof fn a_member_is_where_it_stands(graph: GraphConfig, name: Seq<char>, at: int)
    requires
        stands_at(graph, name, at),
    ensures
        crate::keyed::value_at(graph.members@, name) == Some(graph.members@[at].1),
{
    crate::keyed::place_is_the_first(graph.members@, name);
    let place = crate::keyed::place(graph.members@, name);
    assert(crate::keyed::has_name(graph.members@, name));
    if place < at {
        assert(graph.members@[place].0@ != name);
    } else if at < place {
        assert(graph.members@[at].0@ != name);
    }
}

/// From the eighth schema on a member holds the run open or not as it says, and where it
/// says nothing exactly where it carries no schedule; a graph without the member has
/// nothing in the background under that name. Under every schema, a member that carries a
/// schedule and says nothing is in the background, and one that carries none and waits for
/// nobody is not.
pub proof fn a_member_is_background_as_it_says(
    graph: &GraphConfig,
    name: &str,
    answer: bool,
    at: int,
)
    requires
        call_ensures(GraphConfig::is_background, (graph, name), answer),
    ensures
        (forall|i: int| 0 <= i < graph.members@.len() ==> (#[trigger] graph.members@[i]).0@ != name@)
            ==> !answer,
        stands_at(*graph, name@, at) ==> {
            let (declared, paced, waits) = match graph.members@[at].1 {
                Member::Onejudge(member) => (
                    member.background,
                    member.schedule is Some,
                    member.deps@.len() > 0,
                ),
                Member::Oneharness(member) => (
                    member.background,
                    member.schedule is Some,
                    member.deps@.len() > 0,
                ),
            };
            &&& graph.version >= 8 ==> (declared matches Some(said) ==> answer == said)
            &&& graph.version >= 8 && declared is None ==> answer == paced
            &&& graph.version < 8 && paced ==> answer
            &&& graph.version < 8 && !paced && !waits ==> !answer
        },
{
    if stands_at(*graph, name@, at) {
        a_member_is_where_it_stands(*graph, name@, at);
    }
    if forall|i: int| 0 <= i < graph.members@.len() ==> (#[trigger] graph.members@[i]).0@
        != name@ {
        crate::keyed::place_is_the_first(graph.members@, name@);
    }
}

/// A member waits for, is paced by, works in and declares what its own document says,
/// whichever engine it is of.
pub proof fn a_members_document_says_how_it_runs(
    member: &Member,
    deps: &Vec<String>,
    schedule: Option<Schedule>,
    dir: &Option<String>,
    declared: Option<bool>,
)
    requires
        call_ensures(Member::deps, (member,), deps),
        call_ensures(Member::schedule, (member,), schedule),
        call_ensures(Member::dir, (member,), dir),
        call_ensures(Member::declared_background, (member,), declared),
    ensures
        member matches Member::Onejudge(own) ==> deps@ == own.deps@ && schedule == own.schedule
            && *dir == own.dir && declared == own.background,
        member matches Member::Oneharness(own) ==> deps@ == own.deps@ && schedule == own.schedule
            && *dir == own.dir && declared == own.background,
{
}

} // verus!
