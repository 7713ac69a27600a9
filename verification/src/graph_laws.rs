//! What holds of every graph that validation accepts.

use vstd::prelude::*;

use crate::config::{
    GraphConfig, Member, PreTurn, DEFAULT_PRE_TURN_SECONDS, FIRST_BACKGROUND_VERSION,
    FIRST_EVENT_FILTER_VERSION, FIRST_MEMBER_JOB_VERSION, FIRST_PERSONA_CATALOG_VERSION,
    FIRST_PRE_TURN_VERSION, FIRST_SCHEMA_VERSION, FIRST_START_AFTER_VERSION,
    FIRST_TWO_PARTY_DEPS_VERSION, FIRST_TWO_PARTY_JOB_VERSION, MAX_PRE_TURN_COMMANDS,
    MAX_PRE_TURN_SECONDS, MAX_SCHEDULE_SECONDS, SCHEMA_VERSION,
};
use crate::liveness::DEFAULT_STALL_TIMEOUT;
use crate::text::{blank, plain_name};
use crate::validation::{
    command_refusal, env_refusal, events_refusal, first_view_refusal, graph_refusal,
    judge_refusal, member_refusal, members_refusal, panel_refusal, personas_refusal,
    variable_refusal, view_refusal,
};

verus! {

/// A graph a run could be made of: every part of it is one a run could honour
/// under the schema the document declares.
pub open spec fn runnable(graph: GraphConfig) -> bool {
    &&& FIRST_SCHEMA_VERSION <= graph.version <= SCHEMA_VERSION
    &&& !blank(graph.name@)
    &&& graph.members@.len() > 0
    &&& forall|i: int|
        0 <= i < graph.env@.len() ==> variable_refusal(
            (#[trigger] graph.env@[i]).0@,
            graph.env@[i].1@,
        ) is None
    &&& personas_refusal(graph.personas, graph.version) is None
    &&& events_refusal(graph) is None
    &&& forall|i: int|
        0 <= i < graph.members@.len() ==> member_refusal(
            (#[trigger] graph.members@[i]).0@,
            graph.members@[i].1,
            graph.version,
        ) is None
}

proof fn every_variable_is_looked_at(env: Seq<(String, String)>, upto: nat)
    requires
        upto <= env.len(),
    ensures
        env_refusal(env, upto) is None <==> forall|i: int|
            0 <= i < upto ==> variable_refusal((#[trigger] env[i]).0@, env[i].1@) is None,
    decreases upto,
{
    if upto > 0 {
        every_variable_is_looked_at(env, (upto - 1) as nat);
        assert(env[upto - 1] == env[upto - 1]);
    }
}

proof fn every_member_is_looked_at(members: Seq<(String, Member)>, schema: u32, upto: nat)
    requires
        upto <= members.len(),
    ensures
        members_refusal(members, schema, upto) is None <==> forall|i: int|
            0 <= i < upto ==> member_refusal(
                (#[trigger] members[i]).0@,
                members[i].1,
                schema,
            ) is None,
    decreases upto,
{
    if upto > 0 {
        every_member_is_looked_at(members, schema, (upto - 1) as nat);
        assert(members[upto - 1] == members[upto - 1]);
    }
}

/// Validation accepts exactly the graphs a run could be made of.
pub proof fn a_graph_is_accepted_exactly_when_it_could_run(graph: GraphConfig)
    ensures
        graph_refusal(graph) is None <==> runnable(graph),
{
    every_variable_is_looked_at(graph.env@, graph.env@.len());
    every_member_is_looked_at(graph.members@, graph.version, graph.members@.len());
}

/// Every member of an accepted graph is named by a single path component.
pub proof fn an_accepted_member_is_named_by_one_path_component(graph: GraphConfig, at: int)
    requires
        graph_refusal(graph) is None,
        0 <= at < graph.members@.len(),
    ensures
        plain_name(graph.members@[at].0@),
{
    a_graph_is_accepted_exactly_when_it_could_run(graph);
    assert(member_refusal(
        graph.members@[at].0@,
        graph.members@[at].1,
        graph.version,
    ) is None);
}

/// A graph-wide field is accepted only under a schema that has it.
pub proof fn a_graph_field_requires_its_schema(graph: GraphConfig)
    requires
        graph_refusal(graph) is None,
    ensures
        graph.personas is Some ==> graph.version >= FIRST_PERSONA_CATALOG_VERSION,
        graph.events is Some ==> graph.version >= FIRST_EVENT_FILTER_VERSION,
{
}

/// A member's field is accepted only under a schema that has it.
pub proof fn a_member_field_requires_its_schema(graph: GraphConfig, at: int)
    requires
        graph_refusal(graph) is None,
        0 <= at < graph.members@.len(),
    ensures
        graph.members@[at].1.declares_background() is Some ==> graph.version
            >= FIRST_BACKGROUND_VERSION,
        graph.members@[at].1.paced() matches Some(schedule) && schedule.start_after is Some
            ==> graph.version >= FIRST_START_AFTER_VERSION,
        graph.members@[at].1 matches Member::Onejudge(member) ==> {
            &&& member.deps@.len() > 0 ==> graph.version >= FIRST_TWO_PARTY_DEPS_VERSION
            &&& member.dir is Some ==> graph.version >= FIRST_TWO_PARTY_JOB_VERSION
            &&& member.schedule is Some ==> graph.version >= FIRST_TWO_PARTY_JOB_VERSION
        },
        graph.members@[at].1 matches Member::Oneharness(member) ==> {
            &&& member.task is Some ==> graph.version >= FIRST_MEMBER_JOB_VERSION
            &&& member.dir is Some ==> graph.version >= FIRST_MEMBER_JOB_VERSION
            &&& member.pre_turn@.len() > 0 ==> graph.version >= FIRST_PRE_TURN_VERSION
        },
{
    a_graph_is_accepted_exactly_when_it_could_run(graph);
    assert(member_refusal(
        graph.members@[at].0@,
        graph.members@[at].1,
        graph.version,
    ) is None);
}

/// A schedule an accepted graph carries fires, and within the ceiling on both of
/// its spans.
pub proof fn an_accepted_schedule_fires_within_its_ceiling(graph: GraphConfig, at: int)
    requires
        graph_refusal(graph) is None,
        0 <= at < graph.members@.len(),
    ensures
        graph.members@[at].1.paced() matches Some(schedule) ==> {
            &&& 0 < schedule.every <= MAX_SCHEDULE_SECONDS
            &&& schedule.waits(graph.version) <= MAX_SCHEDULE_SECONDS
        },
{
    a_graph_is_accepted_exactly_when_it_could_run(graph);
    assert(member_refusal(
        graph.members@[at].0@,
        graph.members@[at].1,
        graph.version,
    ) is None);
}

/// A graph that is accepted under the schema it declares is accepted under every later
/// one this library reads.
pub proof fn an_accepted_graph_stays_accepted_under_a_later_schema(
    one: GraphConfig,
    later: GraphConfig,
)
    requires
        graph_refusal(one) is None,
        one.version <= later.version <= SCHEMA_VERSION,
        later.name == one.name,
        later.env == one.env,
        later.personas == one.personas,
        later.events == one.events,
        later.members == one.members,
    ensures
        graph_refusal(later) is None,
{
    a_graph_is_accepted_exactly_when_it_could_run(one);
    a_graph_is_accepted_exactly_when_it_could_run(later);
    assert forall|i: int| 0 <= i < later.members@.len() implies member_refusal(
        (#[trigger] later.members@[i]).0@,
        later.members@[i].1,
        later.version,
    ) is None by {
        assert(member_refusal(one.members@[i].0@, one.members@[i].1, one.version) is None);
    }
}

/// Whether a member names no field that some readable schema does not have.
pub open spec fn names_no_newer_field(member: Member) -> bool {
    &&& member.declares_background() is None
    &&& member.paced() matches Some(schedule) ==> schedule.start_after is None
    &&& match member {
        Member::Onejudge(member) => member.deps@.len() == 0 && member.dir is None
            && member.schedule is None,
        Member::Oneharness(member) => member.task is None && member.dir is None
            && member.pre_turn@.len() == 0,
    }
}

/// A document naming no field newer than the first schema is accepted under every
/// schema this library reads, or under none.
pub proof fn a_document_of_old_fields_reads_under_every_schema(one: GraphConfig, other: GraphConfig)
    requires
        graph_refusal(one) is None,
        FIRST_SCHEMA_VERSION <= other.version <= SCHEMA_VERSION,
        other.name == one.name,
        other.env == one.env,
        other.members == one.members,
        one.personas is None && other.personas is None,
        one.events is None && other.events is None,
        forall|i: int|
            0 <= i < one.members@.len() ==> names_no_newer_field((#[trigger] one.members@[i]).1),
    ensures
        graph_refusal(other) is None,
{
    a_graph_is_accepted_exactly_when_it_could_run(one);
    a_graph_is_accepted_exactly_when_it_could_run(other);
    assert forall|i: int| 0 <= i < other.members@.len() implies member_refusal(
        (#[trigger] other.members@[i]).0@,
        other.members@[i].1,
        other.version,
    ) is None by {
        assert(member_refusal(one.members@[i].0@, one.members@[i].1, one.version) is None);
        assert(names_no_newer_field(one.members@[i].1));
    }
}

/// The seconds a member's views may take between them.
pub open spec fn seconds_waited(views: Seq<PreTurn>) -> int
    decreases views.len(),
{
    if views.len() == 0 {
        0
    } else {
        seconds_waited(views.drop_last()) + (match views.last().timeout {
            Some(named) => named,
            None => DEFAULT_PRE_TURN_SECONDS,
        })
    }
}

proof fn each_view_is_bounded(name: Seq<char>, views: Seq<PreTurn>, upto: nat)
    requires
        upto <= views.len(),
        first_view_refusal(name, views, upto) is None,
    ensures
        forall|i: int| 0 <= i < upto ==> view_refusal(name, i as nat, #[trigger] views[i]) is None,
        0 <= seconds_waited(views.take(upto as int)) <= upto * MAX_PRE_TURN_SECONDS,
    decreases upto,
{
    if upto > 0 {
        let fewer = (upto - 1) as nat;
        each_view_is_bounded(name, views, fewer);
        assert(views.take(upto as int).drop_last() =~= views.take(fewer as int));
        assert(views.take(upto as int).last() == views[upto - 1]);
    } else {
        assert(views.take(0) =~= seq![]);
    }
}

/// Every view an accepted member declares timing out costs it less than the span
/// after which its own supervision would condemn it, so a member cannot be held
/// past that by the views it declared.
pub proof fn views_cannot_outlast_supervision(graph: GraphConfig, at: int)
    requires
        graph_refusal(graph) is None,
        0 <= at < graph.members@.len(),
    ensures
        graph.members@[at].1 matches Member::Oneharness(member) ==> seconds_waited(
            member.pre_turn@,
        ) <= MAX_PRE_TURN_COMMANDS * MAX_PRE_TURN_SECONDS < DEFAULT_STALL_TIMEOUT,
{
    a_graph_is_accepted_exactly_when_it_could_run(graph);
    let name = graph.members@[at].0@;
    assert(member_refusal(name, graph.members@[at].1, graph.version) is None);
    if let Member::Oneharness(member) = graph.members@[at].1 {
        let views = member.pre_turn@;
        if views.len() > 0 {
            each_view_is_bounded(name, views, views.len());
            assert(views.take(views.len() as int) =~= views);
        }
    }
}

/// A view an accepted member declares is called something.
pub proof fn an_accepted_view_has_a_name(graph: GraphConfig, at: int, view: int)
    requires
        graph_refusal(graph) is None,
        0 <= at < graph.members@.len(),
        graph.members@[at].1 matches Member::Oneharness(member) && 0 <= view
            < member.pre_turn@.len(),
    ensures
        graph.members@[at].1 matches Member::Oneharness(member) ==> !blank(
            member.pre_turn@[view].called(),
        ),
{
    a_graph_is_accepted_exactly_when_it_could_run(graph);
    let name = graph.members@[at].0@;
    assert(member_refusal(name, graph.members@[at].1, graph.version) is None);
    if let Member::Oneharness(member) = graph.members@[at].1 {
        let views = member.pre_turn@;
        each_view_is_bounded(name, views, views.len());
        assert(view_refusal(name, view as nat, views[view]) is None);
    }
}

/// Every judge an accepted member's panel holds is one onejudge could be handed:
/// there is at least one, a command judge has a command to spawn, and a label is a
/// name a file can have.
pub proof fn an_accepted_panel_could_be_composed(graph: GraphConfig, at: int, judge: int)
    requires
        graph_refusal(graph) is None,
        0 <= at < graph.members@.len(),
    ensures
        graph.members@[at].1 matches Member::Onejudge(member) ==> {
            &&& member.judge@.len() > 0
            &&& 0 <= judge < member.judge@.len() ==> {
                &&& member.judge@[judge].labelled() matches Some(label) ==> plain_name(label@)
                &&& member.judge@[judge] matches crate::config::JudgeSide::Command(side)
                    ==> command_refusal(side.command@) is None
            }
        },
{
    a_graph_is_accepted_exactly_when_it_could_run(graph);
    let name = graph.members@[at].0@;
    assert(member_refusal(name, graph.members@[at].1, graph.version) is None);
    if let Member::Onejudge(member) = graph.members@[at].1 {
        if 0 <= judge < member.judge@.len() {
            every_judge_is_looked_at(name, member.judge@, member.judge@.len(), judge);
        }
    }
}

proof fn every_judge_is_looked_at(
    name: Seq<char>,
    judges: Seq<crate::config::JudgeSide>,
    upto: nat,
    judge: int,
)
    requires
        panel_refusal(name, judges, upto) is None,
        0 <= judge < upto <= judges.len(),
    ensures
        judge_refusal(name, (judge + 1) as nat, judges[judge]) is None,
    decreases upto,
{
    if judge < upto - 1 {
        every_judge_is_looked_at(name, judges, (upto - 1) as nat, judge);
    }
}

} // verus!
