//! What a member is started with, said of what its author wrote.

use vstd::prelude::*;

use crate::config::{JudgeSide, Member, TaskText};
use crate::error::Error;
use crate::invoke::{
    build, member_dir, Context, Field, GeneratedFile, Invocation, Launch, Prepared, ResolvedRef,
    Sources, TwoParty,
};
use crate::json::{
    json_document, json_member, json_object, json_string, with_member, yaml_of,
};
use crate::member::Kind;
use crate::provider::{judge_file, panel_of, provider_block, Panel};
use crate::stamp::{
    families_of, family_of, stamp_model, stamp_side, stamped_with, Side,
};
use crate::task::member_task;
use crate::text::{decimal, text_of};
use crate::toml::{toml_array, toml_set, toml_set_in, toml_set_under, EditedText};

verus! {

// ---- Where things are ----
/// Whether a path is that of a name in a directory.
pub open spec fn placed_in(path: Seq<char>, dir: Seq<char>, name: Seq<char>) -> bool {
    if dir.len() == 0 {
        path == name
    } else if dir.last() == '/' {
        path == dir + name
    } else {
        path == dir + seq!['/'] + name
    }
}

pub(crate) proof fn a_name_is_placed(dir: Seq<char>, name: Seq<char>)
    requires
        name.len() > 0,
        name[0] != '/',
    ensures
        placed_in(crate::anchor::under(dir, name), dir, name),
{
    reveal_strlit("/");
    assert("/"@ =~= seq!['/']);
}

// ---- Stamping a side ----
/// Whether an identity is one of a harness family: the family itself, or the family and
/// then a colon.
pub open spec fn of_family(identity: Seq<char>, family: Seq<char>) -> bool {
    &&& forall|i: int| 0 <= i < family.len() ==> #[trigger] family[i] != ':'
    &&& family.len() <= identity.len()
    &&& identity.take(family.len() as int) == family
    &&& family.len() == identity.len() || identity[family.len() as int] == ':'
}

pub(crate) proof fn an_identity_is_of_its_family(identity: Seq<char>)
    ensures
        of_family(identity, family_of(identity)),
    decreases identity.len(),
{
    let family = family_of(identity);
    if identity.len() > 0 && identity[0] != ':' {
        let rest = identity.drop_first();
        an_identity_is_of_its_family(rest);
        let inner = family_of(rest);
        assert forall|i: int| 0 <= i < family.len() implies #[trigger] family[i] != ':' by {
            if i > 0 {
                assert(family[i] == inner[i - 1]);
            }
        }
        assert(identity.take(family.len() as int) =~= family) by {
            assert forall|i: int| 0 <= i < family.len() implies identity[i] == family[i] by {
                if i > 0 {
                    assert(rest.take(inner.len() as int)[i - 1] == inner[i - 1]);
                    assert(rest[i - 1] == identity[i]);
                }
            }
        }
        if family.len() < identity.len() {
            assert(rest[inner.len() as int] == identity[family.len() as int]);
        }
    } else {
        assert(identity.take(0) =~= family);
    }
}

pub(crate) proof fn an_identity_has_one_family(
    identity: Seq<char>,
    one: Seq<char>,
    other: Seq<char>,
)
    requires
        of_family(identity, one),
        of_family(identity, other),
    ensures
        one == other,
{
    if one.len() < other.len() {
        assert(identity.take(other.len() as int)[one.len() as int] == identity[one.len() as int]);
        assert(other[one.len() as int] != ':');
    } else if other.len() < one.len() {
        assert(identity.take(one.len() as int)[other.len() as int]
            == identity[other.len() as int]);
        assert(one[other.len() as int] != ':');
    }
}

/// Whether a config's chain is of one harness family throughout.
pub open spec fn one_family(config: Seq<char>, family: Seq<char>) -> bool {
    toml_array(config, "harnesses"@) matches Ok(Some(chain)) && chain.len() > 0 && forall|i: int|
        0 <= i < chain.len() ==> ((#[trigger] chain[i]) matches Some(identity) && of_family(
            identity,
            family,
        ))
}

/// Whether `text` is a config with a model put under its chain's one family, and with
/// nothing put in where there is no model.
pub open spec fn has_model(config: Seq<char>, model: Option<Seq<char>>, text: Seq<char>) -> bool {
    match model {
        None => text == config,
        Some(model) => exists|family: Seq<char>| #[trigger]
            one_family(config, family) && toml_set_under(
                config,
                "harness"@,
                family,
                "model"@,
                model,
            ) == EditedText::Done(text),
    }
}

/// Whether `text` is a config with an approval mode put in, where there is one.
pub open spec fn has_mode(config: Seq<char>, mode: Option<Seq<char>>, text: Seq<char>) -> bool {
    match mode {
        None => text == config,
        Some(mode) => match toml_set(config, "mode"@, mode) {
            EditedText::Done(edited) => text == edited,
            EditedText::NotToml(_) => false,
            _ => text == config,
        },
    }
}

/// Whether `text` is a config whose environment carries a variable, where there is one.
pub open spec fn has_variable(
    config: Seq<char>,
    variable: Option<(Seq<char>, Seq<char>)>,
    text: Seq<char>,
) -> bool {
    match variable {
        None => text == config,
        Some((key, value)) => toml_set_in(config, "env"@, key, value) == EditedText::Done(text),
    }
}

/// Whether `text` is a config with a model, a mode and a variable put in, in that order.
pub open spec fn carries_values(
    config: Seq<char>,
    model: Option<Seq<char>>,
    mode: Option<Seq<char>>,
    variable: Option<(Seq<char>, Seq<char>)>,
    text: Seq<char>,
) -> bool {
    exists|first: Seq<char>, second: Seq<char>|
        #[trigger] has_model(config, model, first) && #[trigger] has_mode(first, mode, second)
            && has_variable(second, variable, text)
}

proof fn a_stamped_model_is_under_its_family(
    config: Seq<char>,
    origin: Seq<char>,
    model: Seq<char>,
)
    ensures
        crate::stamp::model_stamped(config, origin, model) matches Ok(text) ==> has_model(
            config,
            Some(model),
            text,
        ),
{
    if let Ok(text) = crate::stamp::model_stamped(config, origin, model) {
        crate::stamp::a_stamped_models_chain_is_one_family(config, origin, model);
        let chain = toml_array(config, "harnesses"@)->Ok_0->0;
        let families = families_of(chain);
        crate::stamp::a_chains_families_are_its_entries(chain);
        let family = families[0];
        assert(families.contains(family_of(chain[0]->0)));
        assert(families.len() >= 1);
        assert forall|i: int| 0 <= i < chain.len() implies ((#[trigger] chain[i]) matches Some(
            identity,
        ) && of_family(identity, family)) by {
            assert(families.contains(family_of(chain[i]->0)));
            an_identity_is_of_its_family(chain[i]->0);
        }
        assert(one_family(config, family));
    }
}

proof fn what_is_stamped_is_carried(
    config: Seq<char>,
    origin: Seq<char>,
    model: Option<Seq<char>>,
    mode: Option<Seq<char>>,
    scratch: Option<(Seq<char>, Seq<char>)>,
    text: Seq<char>,
)
    requires
        stamped_with(config, origin, model, mode, scratch) == Ok::<Seq<char>, Seq<char>>(text),
    ensures
        carries_values(config, model, mode, scratch, text),
{
    if let Some(model) = model {
        a_stamped_model_is_under_its_family(config, origin, model);
    }
    let first = crate::stamp::paired(config, origin, model)->Ok_0;
    let second = crate::stamp::moded(first, origin, mode)->Ok_0;
    assert(has_model(config, model, first));
    assert(has_mode(first, mode, second));
    assert(has_variable(second, scratch, text));
}

/// A model is put under the one harness family that the config's chain names, and
/// nowhere else; a chain that names no one family refuses it, and the chain itself stays
/// as it is.
pub proof fn a_model_goes_to_its_chains_one_family(
    config: &str,
    origin: &str,
    model: &str,
    stamped: Result<String, Error>,
)
    requires
        call_ensures(stamp_model, (config, origin, model), stamped),
    ensures
        stamped matches Ok(text) ==> has_model(config@, Some(model@), text@) && toml_array(
            text@,
            "harnesses"@,
        ) == toml_array(config@, "harnesses"@),
        stamped is Ok ==> exists|family: Seq<char>| one_family(config@, family),
        stamped matches Err(error) ==> error is InvalidConfig,
{
    a_stamped_model_is_under_its_family(config@, origin@, model@);
    if stamped is Ok {
        assert(exists|family: Seq<char>| one_family(config@, family));
    }
}

/// A chain of one harness family takes a model, however many entries it has, wherever the
/// model's place in the document can be written; and a refusal names the config it is of.
pub proof fn a_chain_of_one_family_takes_a_model(
    config: &str,
    origin: &str,
    model: &str,
    stamped: Result<String, Error>,
    family: Seq<char>,
)
    requires
        call_ensures(stamp_model, (config, origin, model), stamped),
        one_family(config@, family),
    ensures
        stamped is Ok <==> toml_set_under(
            config@,
            "harness"@,
            family,
            "model"@,
            model@,
        ) is Done,
        stamped is Ok ==> toml_set_under(config@, "harness"@, family, "model"@, model@)
            == EditedText::Done(stamped->Ok_0@),
        stamped matches Err(Error::InvalidConfig(why)) ==> why@.len() >= origin@.len()
            && why@.take(origin@.len() as int) == origin@,
{
    let chain = toml_array(config@, "harnesses"@)->Ok_0->0;
    assert(crate::stamp::all_strings(chain));
    crate::stamp::a_chains_families_are_its_entries(chain);
    let families = families_of(chain);
    assert forall|i: int| 0 <= i < families.len() implies #[trigger] families[i] == family by {
        assert(families.contains(families[i]));
        let j = choose|j: int|
            0 <= j < chain.len() && family_of((#[trigger] chain[j])->0) == families[i];
        assert(chain[j] is Some);
        an_identity_is_of_its_family(chain[j]->0);
        an_identity_has_one_family(chain[j]->0, family, families[i]);
    }
    assert(families.contains(family_of(chain[0]->0)));
    assert(families.len() == 1) by {
        if families.len() > 1 {
            assert(families[0] == families[1]);
            crate::keyed::order_is_total(families[0], families[1]);
        }
    }
    if let Err(Error::InvalidConfig(why)) = stamped {
        assert(why@.take(origin@.len() as int) =~= origin@);
    }
}

/// A chain that names two harness families takes no model.
pub proof fn a_chain_of_two_families_takes_no_model(
    config: &str,
    origin: &str,
    model: &str,
    stamped: Result<String, Error>,
    a: int,
    b: int,
    one: Seq<char>,
    other: Seq<char>,
)
    requires
        call_ensures(stamp_model, (config, origin, model), stamped),
        toml_array(config@, "harnesses"@) matches Ok(Some(chain)) && 0 <= a < chain.len() && 0 <= b
            < chain.len() && (chain[a] matches Some(identity) && of_family(identity, one)) && (
        chain[b] matches Some(identity) && of_family(identity, other)),
        one != other,
    ensures
        stamped is Err,
{
    a_stamped_model_is_under_its_family(config@, origin@, model@);
    if stamped is Ok {
        let chain = toml_array(config@, "harnesses"@)->Ok_0->0;
        let family = choose|family: Seq<char>| #[trigger]
            one_family(config@, family) && toml_set_under(
                config@,
                "harness"@,
                family,
                "model"@,
                model@,
            ) == EditedText::Done(stamped->Ok_0@);
        assert(chain[a] is Some);
        assert(chain[b] is Some);
        an_identity_has_one_family(chain[a]->0, one, family);
        an_identity_has_one_family(chain[b]->0, other, family);
    }
}

/// A side with nothing of its own to carry is left as it is, whatever it holds.
pub proof fn a_plain_side_is_untouched(
    config: &str,
    origin: &str,
    side: Side<'_>,
    stamped: Result<String, Error>,
)
    requires
        call_ensures(stamp_side, (config, origin, side), stamped),
        side.model is None && side.mode is None && side.scratch is None,
    ensures
        stamped matches Ok(text) && text@ == config@,
{
}

/// Stamping a model alone is what pairing a model with a config is.
pub proof fn a_side_with_a_model_alone_is_paired(
    config: &str,
    origin: &str,
    side: Side<'_>,
    stamped: Result<String, Error>,
    paired: Result<String, Error>,
)
    requires
        call_ensures(stamp_side, (config, origin, side), stamped),
        side.model is Some && side.mode is None && side.scratch is None,
        call_ensures(stamp_model, (config, origin, side.model->0), paired),
    ensures
        stamped is Ok <==> paired is Ok,
        stamped is Ok ==> stamped->Ok_0@ == paired->Ok_0@,
{
}

// ---- The task ----
/// A member is given its own task where it has one and the run's otherwise, and is
/// refused exactly where there is neither; its own task is taken as it is under a schema
/// that knows no token, and the run's always is.
pub proof fn a_member_is_given_a_task(
    own: &Option<String>,
    given: Option<&str>,
    reading: TaskText,
    task: Result<String, Error>,
)
    requires
        call_ensures(member_task, (own, given, reading), task),
    ensures
        task is Err <==> own is None && given is None,
        own is None && given is Some ==> task->Ok_0@ == given->0@,
        own is Some && reading is Literal ==> task->Ok_0@ == own->0@,
        own is Some && (forall|i: int| 0 <= i < own->0@.len() ==> #[trigger] own->0@[i] != '{')
            ==> task->Ok_0@ == own->0@,
        task matches Err(error) ==> (error matches Error::InvalidConfig(why) && why@
            == "no task: supply one with --task/--task-file, or give the member its own `task`"@),
{
    if let Some(text) = *own {
        if forall|i: int| 0 <= i < text@.len() ==> #[trigger] text@[i] != '{' {
            crate::task::prose_without_a_brace_is_untouched(
                text@,
                match given {
                    Some(given) => given@,
                    None => ""@,
                },
            );
        }
    }
}

/// A token in a member's own task stands for the run's task, wherever in the prose it
/// stands, and an escaped one for the token's own text.
pub proof fn a_token_stands_for_the_runs_task(
    own: &Option<String>,
    given: Option<&str>,
    task: Result<String, Error>,
    before: Seq<char>,
    behind: Seq<char>,
    escaped: bool,
)
    requires
        call_ensures(member_task, (own, given, TaskText::Template), task),
        own matches Some(prose) && prose@ == before + (if escaped {
            "{{task}}"@
        } else {
            "{task}"@
        }) + behind,
        forall|i: int| 0 <= i < before.len() ==> #[trigger] before[i] != '{',
        forall|i: int| 0 <= i < behind.len() ==> #[trigger] behind[i] != '{',
    ensures
        task matches Ok(text) && text@ == before + (if escaped {
            "{task}"@
        } else {
            match given {
                Some(given) => given@,
                None => seq![],
            }
        }) + behind,
{
    reveal_strlit("");
    let run = match given {
        Some(given) => given@,
        None => ""@,
    };
    assert(""@ =~= seq![]);
    let token = if escaped {
        "{{task}}"@
    } else {
        "{task}"@
    };
    let rest = token + behind;
    what_stands_before_is_kept(before, rest, run);
    assert(before + token + behind =~= before + rest);
    if escaped {
        crate::task::the_escaped_token_is_the_tokens_text(behind, run);
    } else {
        crate::task::the_token_is_the_runs_task(behind, run);
    }
    crate::task::prose_without_a_brace_is_untouched(behind, run);
    if escaped {
        assert(before + ("{task}"@ + behind) =~= before + "{task}"@ + behind);
    } else {
        assert(before + (run + behind) =~= before + run + behind);
    }
}

proof fn what_stands_before_is_kept(before: Seq<char>, rest: Seq<char>, given: Seq<char>)
    requires
        forall|i: int| 0 <= i < before.len() ==> #[trigger] before[i] != '{',
    ensures
        crate::task::expanded(before + rest, given) == before + crate::task::expanded(rest, given),
    decreases before.len(),
{
    reveal_strlit("{task}");
    reveal_strlit("{{task}}");
    let whole = before + rest;
    if before.len() == 0 {
        assert(whole =~= rest);
        assert(before + crate::task::expanded(rest, given) =~= crate::task::expanded(rest, given));
    } else {
        let inner = before.drop_first();
        assert(whole.drop_first() =~= inner + rest);
        assert forall|i: int| 0 <= i < inner.len() implies #[trigger] inner[i] != '{' by {
            assert(before[i + 1] != '{');
        }
        what_stands_before_is_kept(inner, rest, given);
        assert(whole[0] == before[0]);
        if crate::task::begins(whole, "{task}"@) {
            assert(whole.take(6)[0] == whole[0]);
        }
        if crate::task::begins(whole, "{{task}}"@) {
            assert(whole.take(8)[0] == whole[0]);
        }
        assert(seq![whole[0]] + (inner + crate::task::expanded(rest, given)) =~= before
            + crate::task::expanded(rest, given));
    }
}

// ---- A two-party member ----
/// What an object of members says under a key, which is the first member of that name.
pub open spec fn entry(members: Seq<(Seq<char>, Seq<char>)>, key: Seq<char>) -> Option<Seq<char>>
    decreases members.len(),
{
    if members.len() == 0 {
        None
    } else if members[0].0 == key {
        Some(members[0].1)
    } else {
        entry(members.drop_first(), key)
    }
}

proof fn a_member_that_is_put_is_there(
    members: Seq<(Seq<char>, Seq<char>)>,
    key: Seq<char>,
    value: Seq<char>,
    other: Seq<char>,
)
    ensures
        entry(with_member(members, key, value), key) == Some(value),
        other != key ==> entry(with_member(members, key, value), other) == entry(members, other),
    decreases members.len(),
{
    let put = with_member(members, key, value);
    reveal_with_fuel(entry, 3);
    if members.len() == 0 {
        assert(put.drop_first() =~= seq![]);
    } else if members[0].0 == key {
        assert(put.drop_first() =~= members.drop_first());
    } else {
        a_member_that_is_put_is_there(members.drop_first(), key, value, other);
        assert(put.drop_first() =~= with_member(members.drop_first(), key, value));
    }
}

/// Whether a value of a merged config is written as it is.
pub open spec fn writes_field(field: Field, text: Seq<char>) -> bool {
    match field {
        Field::Text(value) => text == json_string(value@),
        Field::Other(value) => text == value@,
        Field::Mapping(_) => true,
    }
}

proof fn a_field_is_written_as_it_is(entries: Seq<(String, Field)>, at: int)
    requires
        0 <= at < entries.len(),
        forall|i: int| 0 <= i < at ==> (#[trigger] entries[i]).0@ != entries[at].0@,
    ensures
        entry(crate::invoke::fields_of(entries), entries[at].0@) matches Some(text)
            && writes_field(entries[at].1, text),
    decreases entries.len(),
{
    let fields = crate::invoke::fields_of(entries);
    let key = entries[at].0@;
    assert(fields[0].0 == entries[0].0@);
    if at > 0 {
        let rest = entries.drop_first();
        assert(entries[0].0@ != key);
        assert forall|i: int| 0 <= i < at - 1 implies (#[trigger] rest[i]).0@ != rest[at - 1].0@ by {
            assert(entries[i + 1].0@ != key);
        }
        a_field_is_written_as_it_is(rest, at - 1);
        assert(fields.drop_first() =~= crate::invoke::fields_of(rest));
    }
}

/// The files of a two-party member that is ready to start: its agent side's config comes
/// first and its conversation's last, and both are where the launch says. The agent's
/// config carries the member's own model for that side, its mode and its scratch.
pub proof fn a_two_party_member_starts_under_its_own_configs(
    member: &Member,
    context: &Context<'_>,
    catalog: Result<(), Error>,
    sources: Sources,
    refs: Vec<ResolvedRef>,
    prepared: Prepared,
    task: Result<String, Error>,
)
    requires
        crate::invoke::sources_fit(*member, sources),
        call_ensures(build, (member, context, catalog, sources, refs), prepared),
        prepared.invocation is Ok,
        member is Onejudge,
        call_ensures(
            member_task,
            (&member->Onejudge_0.task, context.task, context.task_text),
            task,
        ),
    ensures
        catalog is Ok,
        task is Ok,
        (member, sources) matches (Member::Onejudge(member), Sources::TwoParty(sources)) && {
            let files = prepared.files@;
            let invocation = prepared.invocation->Ok_0;
            &&& sources.base is Ok && sources.merged is Ok && sources.missing@.len() == 0
            &&& files.len() >= 2
            &&& placed_in(files[0].path@, context.scratch@, "oneharness.toml"@)
            &&& sources.agent matches Ok(config) && carries_values(
                config@,
                text_of(member.agent.model),
                Some(member.mode@),
                Some((context.scratch_env@, context.scratch@)),
                files[0].content@,
            )
            &&& placed_in(files.last().path@, context.scratch@, "onejudge.yaml"@)
            &&& invocation.kind == Kind::Onejudge
            &&& invocation.launch matches Launch::Library(launch) && launch.config@
                == files.last().path@ && launch.agent_config@ == files[0].path@
                && launch.session@ == context.session@ && launch.task@ == task->Ok_0@ && (
            member.dir is None ==> launch.worktree@ == context.dir@)
            &&& sources.persona == Ok::<Option<String>, Error>(invocation.persona)
            &&& invocation.env@.len() == 0
            &&& invocation.refs@ == refs@
        },
{
    reveal_strlit("oneharness.toml");
    reveal_strlit("onejudge.yaml");
    a_name_is_placed(context.scratch@, "oneharness.toml"@);
    a_name_is_placed(context.scratch@, "onejudge.yaml"@);
    if let (Member::Onejudge(two), Sources::TwoParty(held)) = (*member, sources) {
        let files = crate::provider::files_of(prepared.files@);
        assert(files.len() == prepared.files@.len());
        let panel = panel_of(
            two.judge@,
            held.judges@,
            two.mode@,
            *context,
            two.judge@.len(),
        );
        assert(files[0] == crate::provider::file_of(prepared.files@[0]));
        assert(files.last() == crate::provider::file_of(prepared.files@.last()));
        let stamped = crate::provider::member_stamped(
            held.agent->Ok_0@,
            two.agent.oneharness_config.0@,
            text_of(two.agent.model),
            two.mode@,
            *context,
        );
        what_is_stamped_is_carried(
            held.agent->Ok_0@,
            two.agent.oneharness_config.0@,
            text_of(two.agent.model),
            Some(two.mode@),
            Some((context.scratch_env@, context.scratch@)),
            stamped->Ok_0,
        );
    }
}

/// A two-party member whose agent names a model that its config's chain cannot take is
/// refused: a chain of two harness families starts nothing.
pub proof fn an_unpairable_agent_model_is_refused(
    member: &Member,
    context: &Context<'_>,
    catalog: Result<(), Error>,
    sources: Sources,
    refs: Vec<ResolvedRef>,
    prepared: Prepared,
    a: int,
    b: int,
    one: Seq<char>,
    other: Seq<char>,
)
    requires
        crate::invoke::sources_fit(*member, sources),
        call_ensures(build, (member, context, catalog, sources, refs), prepared),
        (member, sources) matches (Member::Onejudge(member), Sources::TwoParty(sources))
            && member.agent.model is Some && (sources.agent matches Ok(config) && (toml_array(
            config@,
            "harnesses"@,
        ) matches Ok(Some(chain)) && 0 <= a < chain.len() && 0 <= b < chain.len() && (
        chain[a] matches Some(identity) && of_family(identity, one)) && (chain[b] matches Some(
            identity,
        ) && of_family(identity, other)))),
        one != other,
    ensures
        prepared.invocation is Err,
{
    if let (Member::Onejudge(two), Sources::TwoParty(held)) = (*member, sources) {
        let config = held.agent->Ok_0@;
        let origin = two.agent.oneharness_config.0@;
        let model = two.agent.model->0@;
        a_stamped_model_is_under_its_family(config, origin, model);
        if crate::stamp::model_stamped(config, origin, model) is Ok {
            let text = crate::stamp::model_stamped(config, origin, model)->Ok_0;
            let chain = toml_array(config, "harnesses"@)->Ok_0->0;
            let family = choose|family: Seq<char>| #[trigger]
                one_family(config, family) && toml_set_under(
                    config,
                    "harness"@,
                    family,
                    "model"@,
                    model,
                ) == EditedText::Done(text);
            assert(chain[a] is Some);
            assert(chain[b] is Some);
            an_identity_has_one_family(chain[a]->0, one, family);
            an_identity_has_one_family(chain[b]->0, other, family);
        }
    }
}

/// Whether a harness judge's config is among the files, carrying the judge's own model
/// and the member's mode and scratch.
pub open spec fn judge_config_is_written(
    files: Seq<GeneratedFile>,
    config: Seq<char>,
    model: Option<Seq<char>>,
    mode: Seq<char>,
    context: Context<'_>,
) -> bool {
    exists|i: int|
        0 <= i < files.len() && carries_values(
            config,
            model,
            Some(mode),
            Some((context.scratch_env@, context.scratch@)),
            (#[trigger] files[i]).content@,
        )
}

proof fn a_judges_file_is_kept(
    judges: Seq<JudgeSide>,
    configs: Seq<Result<String, Error>>,
    mode: Seq<char>,
    context: Context<'_>,
    at: nat,
    upto: nat,
)
    requires
        at < upto <= judges.len() == configs.len(),
        judges[at as int] is Harness,
        panel_of(judges, configs, mode, context, upto).1 is None,
    ensures
        ({
            let side = judges[at as int]->Harness_0;
            &&& configs[at as int] is Ok
            &&& crate::provider::member_stamped(
                configs[at as int]->Ok_0@,
                side.oneharness_config.0@,
                text_of(side.model),
                mode,
                context,
            ) is Ok
            &&& exists|i: int|
                0 <= i < panel_of(judges, configs, mode, context, upto).0.len()
                    && #[trigger] panel_of(judges, configs, mode, context, upto).0[i] == (
                    crate::anchor::under(context.scratch@, judge_file(judges, at)),
                    crate::provider::member_stamped(
                        configs[at as int]->Ok_0@,
                        side.oneharness_config.0@,
                        text_of(side.model),
                        mode,
                        context,
                    )->Ok_0,
                )
        }),
    decreases upto,
{
    let last = (upto - 1) as nat;
    let earlier = panel_of(judges, configs, mode, context, last);
    let whole = panel_of(judges, configs, mode, context, upto);
    if at < last {
        a_judges_file_is_kept(judges, configs, mode, context, at, last);
        let side = judges[at as int]->Harness_0;
        let wanted = (
            crate::anchor::under(context.scratch@, judge_file(judges, at)),
            crate::provider::member_stamped(
                configs[at as int]->Ok_0@,
                side.oneharness_config.0@,
                text_of(side.model),
                mode,
                context,
            )->Ok_0,
        );
        let i = choose|i: int| 0 <= i < earlier.0.len() && #[trigger] earlier.0[i] == wanted;
        assert(whole.0[i] == wanted);
    } else {
        assert(whole.0[earlier.0.len() as int] == whole.0.last());
    }
}

/// Every harness judge of a panel that was composed runs under a config of its own, which
/// carries its own model and the member's mode and scratch.
pub proof fn every_harness_judge_has_its_config(
    judges: &Vec<JudgeSide>,
    stream: bool,
    mode: &str,
    configs: Vec<Result<String, Error>>,
    context: &Context<'_>,
    panel: Panel,
    at: int,
)
    requires
        judges@.len() > 0,
        configs@.len() == judges@.len(),
        call_ensures(provider_block, (judges, stream, mode, configs, context), panel),
        panel.block is Ok,
        0 <= at < judges@.len(),
        judges@[at] is Harness,
    ensures
        configs@[at] is Ok,
        judges@[at] matches JudgeSide::Harness(side) && judge_config_is_written(
            panel.files@,
            configs@[at]->Ok_0@,
            text_of(side.model),
            mode@,
            *context,
        ),
{
    a_judges_file_is_kept(judges@, configs@, mode@, *context, at as nat, judges@.len());
    let side = judges@[at]->Harness_0;
    let files = panel_of(judges@, configs@, mode@, *context, judges@.len()).0;
    let stamped = crate::provider::member_stamped(
        configs@[at]->Ok_0@,
        side.oneharness_config.0@,
        text_of(side.model),
        mode@,
        *context,
    );
    let i = choose|i: int|
        0 <= i < files.len() && #[trigger] files[i] == (
            crate::anchor::under(context.scratch@, judge_file(judges@, at as nat)),
            stamped->Ok_0,
        );
    what_is_stamped_is_carried(
        configs@[at]->Ok_0@,
        side.oneharness_config.0@,
        text_of(side.model),
        Some(mode@),
        Some((context.scratch_env@, context.scratch@)),
        stamped->Ok_0,
    );
    assert(crate::provider::files_of(panel.files@)[i] == crate::provider::file_of(
        panel.files@[i],
    ));
}

/// Whether a document is what a conversation runs under: the merged config, with the
/// panel's block and the session put in, with the member's own cap on turns where it has
/// one, and with everything else as it was merged.
pub open spec fn conversation_document(
    document: Seq<(Seq<char>, Seq<char>)>,
    merged: Seq<(String, Field)>,
    block: Seq<char>,
    session: Seq<char>,
    max_turns: Option<u32>,
) -> bool {
    &&& entry(document, "provider"@) == Some(block)
    &&& entry(document, "session"@) == Some(json_string(session))
    &&& max_turns matches Some(cap) ==> exists|user: Seq<(Seq<char>, Seq<char>)>|
        entry(document, "user"@) == Some(#[trigger] json_document(user)) && entry(
            user,
            "max_turns"@,
        ) == Some(decimal(cap as nat))
    &&& forall|at: int|
        0 <= at < merged.len() && (forall|i: int|
            0 <= i < at ==> (#[trigger] merged[i]).0@ != merged[at].0@) && (
        #[trigger] merged[at]).0@ != "provider"@ && merged[at].0@ != "session"@ && merged[at].0@
            != "skill"@ && (merged[at].0@ != "user"@ || max_turns is None) ==> (entry(
            document,
            merged[at].0@,
        ) matches Some(text) && writes_field(merged[at].1, text))
}

/// The conversation of a two-party member runs under its merged config with the panel, the
/// session and the member's own cap on turns in it, and with nothing else changed but
/// where its skill is.
pub proof fn a_conversation_runs_under_its_merged_config(
    member: &Member,
    context: &Context<'_>,
    catalog: Result<(), Error>,
    sources: Sources,
    refs: Vec<ResolvedRef>,
    prepared: Prepared,
    mode: &str,
    panel: Panel,
)
    requires
        crate::invoke::sources_fit(*member, sources),
        call_ensures(build, (member, context, catalog, sources, refs), prepared),
        prepared.invocation is Ok,
        (member, sources) matches (Member::Onejudge(member), Sources::TwoParty(sources)) && mode@
            == member.mode@ && call_ensures(
            provider_block,
            (&member.judge, member.agent.stream, mode, sources.judges, context),
            panel,
        ),
    ensures
        panel.block is Ok,
        (member, sources) matches (Member::Onejudge(member), Sources::TwoParty(sources))
            && exists|document: Seq<(Seq<char>, Seq<char>)>|
            yaml_of(#[trigger] json_document(document)) == Ok::<Seq<char>, Seq<char>>(
                prepared.files@.last().content@,
            ) && conversation_document(
                document,
                sources.merged->Ok_0.entries@,
                panel.block->Ok_0@,
                context.session@,
                member.max_turns,
            ),
{
    if let (Member::Onejudge(two), Sources::TwoParty(held)) = (*member, sources) {
        let merged = held.merged->Ok_0.entries@;
        let skill = crate::invoke::anchored_skill(
            merged,
            text_of(held.base->Ok_0.base_dir),
            context.here@,
        );
        let block = crate::provider::provider_text(two.judge@, two.agent.stream, *context);
        let document = crate::invoke::effective_of(
            merged,
            skill,
            block,
            context.session@,
            two.max_turns,
        );
        assert(crate::provider::files_of(prepared.files@).last() == crate::provider::file_of(
            prepared.files@.last(),
        ));
        a_document_holds_what_was_put_in(merged, skill, block, context.session@, two.max_turns);
        assert(yaml_of(json_document(document)) == Ok::<Seq<char>, Seq<char>>(
            prepared.files@.last().content@,
        ));
    }
}

proof fn a_document_holds_what_was_put_in(
    merged: Seq<(String, Field)>,
    skill: Option<Seq<char>>,
    block: Seq<char>,
    session: Seq<char>,
    max_turns: Option<u32>,
)
    ensures
        conversation_document(
            crate::invoke::effective_of(merged, skill, block, session, max_turns),
            merged,
            block,
            session,
            max_turns,
        ),
{
    reveal_strlit("provider");
    reveal_strlit("session");
    reveal_strlit("skill");
    reveal_strlit("user");
    assert("provider"@.len() == 8);
    assert("session"@.len() == 7);
    assert("skill"@.len() == 5);
    assert("user"@.len() == 4);
    let fields = crate::invoke::fields_of(merged);
    let anchored = match skill {
        Some(path) => with_member(fields, "skill"@, json_string(path)),
        None => fields,
    };
    let panelled = with_member(anchored, "provider"@, block);
    let named = with_member(panelled, "session"@, json_string(session));
    let document = crate::invoke::effective_of(merged, skill, block, session, max_turns);
    assert forall|key: Seq<char>|
        key != "provider"@ && key != "session"@ && key != "skill"@ implies #[trigger] entry(
        named,
        key,
    ) == entry(fields, key) by {
        if let Some(path) = skill {
            a_member_that_is_put_is_there(fields, "skill"@, json_string(path), key);
        }
        a_member_that_is_put_is_there(anchored, "provider"@, block, key);
        a_member_that_is_put_is_there(panelled, "session"@, json_string(session), key);
    }
    a_member_that_is_put_is_there(anchored, "provider"@, block, "session"@);
    a_member_that_is_put_is_there(panelled, "session"@, json_string(session), "provider"@);
    if let Some(cap) = max_turns {
        let user = with_member(
            crate::invoke::user_of(merged),
            "max_turns"@,
            decimal(cap as nat),
        );
        a_member_that_is_put_is_there(
            crate::invoke::user_of(merged),
            "max_turns"@,
            decimal(cap as nat),
            "max_turns"@,
        );
        assert forall|key: Seq<char>| key != "user"@ implies #[trigger] entry(document, key)
            == entry(named, key) by {
            a_member_that_is_put_is_there(named, "user"@, json_document(user), key);
        }
        a_member_that_is_put_is_there(named, "user"@, json_document(user), "session"@);
        assert(entry(document, "user"@) == Some(json_document(user)));
        assert(entry(document, "provider"@) == entry(named, "provider"@));
    }
    assert forall|at: int|
        0 <= at < merged.len() && (forall|i: int|
            0 <= i < at ==> (#[trigger] merged[i]).0@ != merged[at].0@) && (
        #[trigger] merged[at]).0@ != "provider"@ && merged[at].0@ != "session"@ && merged[at].0@
            != "skill"@ && (merged[at].0@ != "user"@ || max_turns is None) implies (entry(
        document,
        merged[at].0@,
    ) matches Some(text) && writes_field(merged[at].1, text)) by {
        a_field_is_written_as_it_is(merged, at);
        assert(entry(named, merged[at].0@) == entry(fields, merged[at].0@));
        assert(entry(document, merged[at].0@) == entry(named, merged[at].0@));
    }
}

// ---- A single-sided member ----
/// A single-sided member that is ready to start runs oneharness in its scratch, under the
/// config it named as it is, in its own directory or the graph's, with its task as the
/// prompt, and streams.
pub proof fn a_single_sided_member_runs_oneharness(
    member: &Member,
    context: &Context<'_>,
    catalog: Result<(), Error>,
    sources: Sources,
    refs: Vec<ResolvedRef>,
    prepared: Prepared,
    task: Result<String, Error>,
)
    requires
        crate::invoke::sources_fit(*member, sources),
        call_ensures(build, (member, context, catalog, sources, refs), prepared),
        member is Oneharness,
        call_ensures(
            member_task,
            (&member->Oneharness_0.task, context.task, context.task_text),
            task,
        ),
    ensures
        (member, sources) matches (Member::Oneharness(member), Sources::SingleSided(sources)) && {
            &&& prepared.invocation is Ok <==> catalog is Ok && sources.config is Ok
                && sources.persona is Ok && task is Ok
            &&& prepared.invocation matches Ok(invocation) ==> {
                &&& prepared.files@.len() == 1
                &&& placed_in(prepared.files@[0].path@, context.scratch@, "oneharness.toml"@)
                &&& sources.config matches Ok(config) && prepared.files@[0].content@ == config@
                &&& invocation.kind == Kind::Oneharness
                &&& sources.persona == Ok::<Option<String>, Error>(invocation.persona)
                &&& invocation.refs@ == refs@
                &&& invocation.launch matches Launch::Process { program, args, cwd } && program@
                    == context.oneharness_bin@ && cwd@ == context.scratch@ && args@.len() == 9
                    && args@[0]@ == "run"@ && args@[1]@ == "--config"@ && args@[2]@
                    == prepared.files@[0].path@ && args@[3]@ == "--cwd"@ && (member.dir is None
                    ==> args@[4]@ == context.dir@) && args@[5]@ == "--events"@ && args@[6]@
                    == "--stream"@ && args@[7]@ == "--prompt"@ && args@[8]@ == task->Ok_0@
            }
        },
{
    reveal_strlit("oneharness.toml");
    a_name_is_placed(context.scratch@, "oneharness.toml"@);
    if let Ok(invocation) = prepared.invocation {
        assert(crate::provider::files_of(prepared.files@).len() == prepared.files@.len());
        assert(crate::provider::files_of(prepared.files@)[0] == crate::provider::file_of(
            prepared.files@[0],
        ));
        if let Launch::Process { args, .. } = invocation.launch {
            let texts = crate::text::texts_of(args@);
            assert(texts.len() == args@.len());
            assert(texts[0] == args@[0]@);
            assert(texts[1] == args@[1]@);
            assert(texts[2] == args@[2]@);
            assert(texts[3] == args@[3]@);
            assert(texts[4] == args@[4]@);
            assert(texts[5] == args@[5]@);
            assert(texts[6] == args@[6]@);
            assert(texts[7] == args@[7]@);
            assert(texts[8] == args@[8]@);
        }
    }
}

/// A catalog the graph named and nobody can read refuses every member, whatever else is
/// true of it.
pub proof fn an_unreadable_catalog_refuses_every_member(
    member: &Member,
    context: &Context<'_>,
    error: Error,
    sources: Sources,
    refs: Vec<ResolvedRef>,
    prepared: Prepared,
)
    requires
        crate::invoke::sources_fit(*member, sources),
        call_ensures(build, (member, context, Err(error), sources, refs), prepared),
    ensures
        prepared.invocation == Err::<Invocation, Error>(error),
        prepared.files@.len() == 0,
{
}

/// A two-party member is refused over what of it could not be resolved, and over a config
/// that merges to an incomplete one: none of that starts anything.
pub proof fn an_unresolved_member_is_refused(
    member: &Member,
    context: &Context<'_>,
    catalog: Result<(), Error>,
    sources: Sources,
    refs: Vec<ResolvedRef>,
    prepared: Prepared,
    at: int,
)
    requires
        crate::invoke::sources_fit(*member, sources),
        call_ensures(build, (member, context, catalog, sources, refs), prepared),
        (member, sources) matches (Member::Onejudge(member), Sources::TwoParty(sources)) && {
            ||| sources.base is Err
            ||| sources.persona is Err
            ||| sources.merged is Err
            ||| sources.agent is Err
            ||| sources.missing@.len() > 0
            ||| 0 <= at < member.judge@.len() && member.judge@[at] is Harness
                && sources.judges@[at] is Err
        },
    ensures
        prepared.invocation is Err,
{
    if let (Member::Onejudge(two), Sources::TwoParty(held)) = (*member, sources) {
        if prepared.invocation is Ok && 0 <= at < two.judge@.len() && two.judge@[at] is Harness {
            a_judges_file_is_kept(
                two.judge@,
                held.judges@,
                two.mode@,
                *context,
                at as nat,
                two.judge@.len(),
            );
        }
    }
}

/// A member works in the graph's directory where it names none, and otherwise never in a
/// relative one: a directory with a root of its own is kept as its own.
pub proof fn a_member_works_where_it_says(
    named: &Option<String>,
    context: &Context<'_>,
    dir: String,
)
    requires
        call_ensures(member_dir, (named, context), dir),
    ensures
        named is None ==> dir@ == context.dir@,
        named matches Some(path) && path@.len() > 0 && path@[0] == '/' ==> dir@.len() > 0 && dir@[0]
            == '/',
        named matches Some(path) && path@.len() > 0 && path@[0] != '/' && context.dir@.len() > 0
            && context.dir@[0] == '/' ==> dir@.len() > 0 && dir@[0] == '/',
{
    reveal_strlit("/");
    reveal_strlit("//");
}

// ---- The panel ----
/// A member of an object, where there is a text for it.
pub open spec fn said_member(key: Seq<char>, value: Option<String>) -> Seq<Seq<char>> {
    match value {
        Some(text) => seq![json_member(key, json_string(text@))],
        None => seq![],
    }
}

/// Whether an entry of a panel is its judge's: of the judge's own kind, with what its
/// author wrote, and under the label the author gave it.
pub open spec fn entry_of_judge(
    text: Seq<char>,
    judge: JudgeSide,
    files: Seq<GeneratedFile>,
    context: Context<'_>,
) -> bool {
    match judge {
        JudgeSide::Harness(side) => exists|k: int|
            0 <= k < files.len() && text == json_object(
                seq![
                    json_member("kind"@, json_string("oneharness"@)),
                    json_member("bin"@, json_string(context.oneharness_bin@)),
                    json_member("judge_config"@, json_string((#[trigger] files[k]).path@)),
                ] + said_member("label"@, side.label),
            ),
        JudgeSide::Command(side) => text == json_object(
            seq![
                json_member("kind"@, json_string("command"@)),
                json_member(
                    "command"@,
                    crate::json::json_strings(crate::text::texts_of(side.command@)),
                ),
            ] + said_member("label"@, side.label),
        ),
        JudgeSide::Llmlint(side) => text == json_object(
            seq![json_member("kind"@, json_string("llmlint"@))] + lint_config_member(
                side.config,
                context,
            ) + said_member("bin"@, side.bin) + said_member("diff_base"@, side.diff_base)
                + args_member(side.args@) + said_member("label"@, side.label),
        ),
    }
}

/// The arguments of an llmlint run, where there are any.
pub open spec fn args_member(args: Seq<String>) -> Seq<Seq<char>> {
    if args.len() > 0 {
        seq![json_member("args"@, crate::json::json_strings(crate::text::texts_of(args)))]
    } else {
        seq![]
    }
}

/// The config of an llmlint run, where one is named: read against the graph document's
/// own directory.
pub open spec fn lint_config_member(config: Option<String>, context: Context<'_>) -> Seq<Seq<char>> {
    match config {
        Some(written) => seq![
            json_member(
                "config"@,
                json_string(
                    crate::anchor::anchored_path_of(
                        context.here@,
                        crate::anchor::seen(context.graph_dir),
                        written@,
                    ),
                ),
            ),
        ],
        None => seq![],
    }
}

/// A lone harness judge with no label is one provider that carries both sides, streams as
/// the agent does, and asks for control.
pub proof fn a_lone_unnamed_judge_is_one_provider(
    judges: &Vec<JudgeSide>,
    stream: bool,
    mode: &str,
    configs: Vec<Result<String, Error>>,
    context: &Context<'_>,
    panel: Panel,
)
    requires
        judges@.len() == 1,
        configs@.len() == 1,
        judges@[0] matches JudgeSide::Harness(side) && side.label is None,
        call_ensures(provider_block, (judges, stream, mode, configs, context), panel),
        panel.block is Ok,
    ensures
        panel.files@.len() == 1,
        placed_in(panel.files@[0].path@, context.scratch@, "oneharness.judge.toml"@),
        panel.block->Ok_0@ == json_object(
            seq![
                json_member("kind"@, json_string("oneharness"@)),
                json_member("bin"@, json_string(context.oneharness_bin@)),
                json_member("judge_config"@, json_string(panel.files@[0].path@)),
                json_member(
                    "stream"@,
                    if stream {
                        "true"@
                    } else {
                        "false"@
                    },
                ),
                json_member("control"@, "true"@),
            ],
        ),
{
    reveal_strlit("oneharness.judge.toml");
    a_name_is_placed(context.scratch@, "oneharness.judge.toml"@);
    reveal_with_fuel(panel_of, 2);
    assert(crate::provider::files_of(panel.files@).len() == panel.files@.len());
    assert(crate::provider::files_of(panel.files@)[0] == crate::provider::file_of(
        panel.files@[0],
    ));
}

/// Every other panel is split: the agent side, which streams as it says and asks for
/// control, beside the judge, or beside the list of the judges in their order, each with an
/// entry of its own.
pub proof fn a_panel_is_split_from_its_agent(
    judges: &Vec<JudgeSide>,
    stream: bool,
    mode: &str,
    configs: Vec<Result<String, Error>>,
    context: &Context<'_>,
    panel: Panel,
)
    requires
        judges@.len() > 0,
        configs@.len() == judges@.len(),
        !(judges@.len() == 1 && (judges@[0] matches JudgeSide::Harness(side) && side.label is None)),
        call_ensures(provider_block, (judges, stream, mode, configs, context), panel),
        panel.block is Ok,
    ensures
        exists|entries: Seq<Seq<char>>|
            entries.len() == judges@.len() && (forall|i: int|
                0 <= i < judges@.len() ==> entry_of_judge(
                    #[trigger] entries[i],
                    judges@[i],
                    panel.files@,
                    *context,
                )) && panel.block->Ok_0@ == json_object(
                seq![
                    json_member("kind"@, json_string("split"@)),
                    json_member(
                        "skill"@,
                        json_object(
                            seq![
                                json_member("kind"@, json_string("oneharness"@)),
                                json_member("bin"@, json_string(context.oneharness_bin@)),
                                json_member(
                                    "stream"@,
                                    if stream {
                                        "true"@
                                    } else {
                                        "false"@
                                    },
                                ),
                                json_member("control"@, "true"@),
                            ],
                        ),
                    ),
                    if judges@.len() == 1 {
                        json_member("judge"@, entries[0])
                    } else {
                        json_member("judges"@, #[trigger] crate::json::json_list(entries))
                    },
                ],
            ),
{
    let entries = crate::provider::entries_text(judges@, judges@.len(), *context);
    assert forall|i: int| 0 <= i < judges@.len() implies entry_of_judge(
        #[trigger] entries[i],
        judges@[i],
        panel.files@,
        *context,
    ) by {
        assert(entries[i] == crate::provider::entry_text(judges@, i as nat, *context));
        match judges@[i] {
            JudgeSide::Harness(_) => {
                a_judges_file_is_kept(
                    judges@,
                    configs@,
                    mode@,
                    *context,
                    i as nat,
                    judges@.len(),
                );
                let files = panel_of(judges@, configs@, mode@, *context, judges@.len()).0;
                let path = crate::anchor::under(context.scratch@, judge_file(judges@, i as nat));
                let k = choose|k: int| 0 <= k < files.len() && (#[trigger] files[k]).0 == path;
                assert(crate::provider::files_of(panel.files@)[k] == crate::provider::file_of(
                    panel.files@[k],
                ));
            },
            _ => {},
        }
    }
    let block = crate::json::json_list(entries);
    assert(entries[0] == crate::provider::entry_text(judges@, 0, *context));
    assert(entries.len() == judges@.len());
}

/// A labelled harness judge's config is the file of its label, and no other's.
pub proof fn a_labelled_judge_has_the_file_of_its_label(
    judges: Seq<JudgeSide>,
    at: nat,
    label: Seq<char>,
)
    requires
        at < judges.len(),
        judges[at as int] matches JudgeSide::Harness(side) && (side.label matches Some(own) && own@
            == label),
    ensures
        judge_file(judges, at) == "oneharness.judge."@ + label + ".toml"@,
{
}

// ---- Every member of a graph ----
/// Every member of a graph that was accepted could be built: what it names was resolved,
/// and it has a task.
pub proof fn an_accepted_graph_has_every_member_built(
    graph: &crate::config::GraphConfig,
    check: &crate::preflight::Check<'_>,
    named: Vec<crate::preflight::Named>,
    built: Result<(), Error>,
    at: int,
)
    requires
        named@.len() == graph.members@.len(),
        forall|i: int|
            0 <= i < named@.len() ==> crate::invoke::sources_fit(
                graph.members@[i].1,
                (#[trigger] named@[i]).sources,
            ),
        call_ensures(crate::preflight::build_members, (graph, check, named), built),
        built is Ok,
        0 <= at < named@.len(),
    ensures
        named@[at].catalog is Ok,
        was_resolved(graph.members@[at].1, named@[at].sources, check.task is Some),
{
    let held = named@[at];
    assert(crate::preflight::all_built(*graph, *check, named@, named@.len() as int));
    assert(crate::preflight::comes_to(*graph, at, *check, held, None));
    a_checked_member_was_resolved(*graph, at, *check, held);
}

/// Whether a member's own sources were all resolved, and it has a task.
pub open spec fn was_resolved(member: Member, sources: Sources, given: bool) -> bool {
    match (member, sources) {
        (Member::Oneharness(member), Sources::SingleSided(sources)) => sources.config is Ok
            && sources.persona is Ok && (member.task is Some || given),
        (Member::Onejudge(member), Sources::TwoParty(sources)) => sources.base is Ok
            && sources.persona is Ok && sources.merged is Ok && sources.agent is Ok
            && sources.missing@.len() == 0 && (member.task is Some || given),
        _ => false,
    }
}

proof fn a_checked_member_was_resolved(
    graph: crate::config::GraphConfig,
    at: int,
    check: crate::preflight::Check<'_>,
    held: crate::preflight::Named,
)
    requires
        crate::invoke::sources_fit(graph.members@[at].1, held.sources),
        crate::preflight::comes_to(graph, at, check, held, None),
    ensures
        held.catalog is Ok,
        was_resolved(graph.members@[at].1, held.sources, check.task is Some),
{
    reveal(crate::preflight::comes_to);
    let context = choose|context: Context<'_>| #[trigger]
        crate::preflight::checked_in(context, check, graph, graph.members@[at].0@) && None::<
            Seq<char>,
        > == (match crate::invoke::build_refusal(
            graph.members@[at].1,
            held.catalog,
            held.sources,
            context,
        ) {
            Some(refused) => Some(
                crate::preflight::member_unbuilt(
                    graph.members@[at].0@,
                    crate::preflight::refusal_said(refused),
                ),
            ),
            None => None,
        });
    what_was_built_was_resolved(graph.members@[at].1, held.catalog, held.sources, context);
}

proof fn what_was_built_was_resolved(
    member: Member,
    catalog: Result<(), Error>,
    sources: Sources,
    context: Context<'_>,
)
    requires
        crate::invoke::sources_fit(member, sources),
        crate::invoke::build_refusal(member, catalog, sources, context) is None,
    ensures
        catalog is Ok,
        was_resolved(member, sources, context.task is Some),
{
}

/// A graph that was refused is refused naming one of its members, and all before that one
/// could be built.
pub proof fn a_refused_graph_names_a_member(
    graph: &crate::config::GraphConfig,
    check: &crate::preflight::Check<'_>,
    named: Vec<crate::preflight::Named>,
    error: Error,
)
    requires
        named@.len() == graph.members@.len(),
        forall|i: int|
            0 <= i < named@.len() ==> crate::invoke::sources_fit(
                graph.members@[i].1,
                (#[trigger] named@[i]).sources,
            ),
        call_ensures(crate::preflight::build_members, (graph, check, named), Err(error)),
    ensures
        error matches Error::InvalidConfig(why) && exists|at: int|
            0 <= at < graph.members@.len() && crate::validation_laws::names_member(
                why@,
                (#[trigger] graph.members@[at]).0@,
            ),
{
    if let Error::InvalidConfig(why) = error {
        let at = choose|at: int|
            0 <= at < named@.len() && crate::preflight::comes_to(
                *graph,
                at,
                *check,
                #[trigger] named@[at],
                Some(why@),
            );
        reveal(crate::preflight::comes_to);
        let name = graph.members@[at].0@;
        let front = "member "@ + crate::text::quoted(name);
        assert(exists|said: Seq<char>| why@ == #[trigger] crate::preflight::member_unbuilt(
            name,
            said,
        ));
        let said = choose|said: Seq<char>| why@ == #[trigger] crate::preflight::member_unbuilt(
            name,
            said,
        );
        assert(why@.take(front.len() as int) =~= front);
        assert(crate::validation_laws::names_member(why@, graph.members@[at].0@));
    }
}

/// A graph of single-sided members whose every ref was resolved, and that has a task for
/// each of them, is accepted.
pub proof fn resolved_single_sided_members_are_accepted(
    graph: &crate::config::GraphConfig,
    check: &crate::preflight::Check<'_>,
    named: Vec<crate::preflight::Named>,
    built: Result<(), Error>,
)
    requires
        named@.len() == graph.members@.len(),
        call_ensures(crate::preflight::build_members, (graph, check, named), built),
        forall|i: int|
            0 <= i < named@.len() ==> ((graph.members@[i].1, (
            #[trigger] named@[i]).sources) matches (
                Member::Oneharness(member),
                Sources::SingleSided(sources),
            ) && named@[i].catalog is Ok && sources.config is Ok && sources.persona is Ok && (
            member.task is Some || check.task is Some)),
    ensures
        built is Ok,
{
    if let Err(Error::InvalidConfig(why)) = built {
        let at = choose|at: int|
            0 <= at < named@.len() && crate::preflight::comes_to(
                *graph,
                at,
                *check,
                #[trigger] named@[at],
                Some(why@),
            );
        reveal(crate::preflight::comes_to);
        assert(named@[at].catalog is Ok);
    }
}

/// A member is checked in its own scratch, and otherwise as the check and the graph say: in
/// the same place, with the same task, catalog and binary.
pub proof fn a_member_is_checked_where_it_would_run(
    context: Context<'_>,
    check: crate::preflight::Check<'_>,
    graph: crate::config::GraphConfig,
    name: Seq<char>,
)
    requires
        crate::preflight::checked_in(context, check, graph, name),
        name.len() > 0,
        name[0] != '/',
    ensures
        placed_in(context.scratch@, check.scratch@, name),
        context.here@ == check.here@,
        context.scratch_env@ == check.scratch_env@,
        context.oneharness_bin@ == check.oneharness_bin@,
        crate::anchor::seen(context.graph_dir) == crate::anchor::seen(check.graph_dir),
        crate::anchor::seen(context.task) == crate::anchor::seen(check.task),
        crate::anchor::seen(context.personas) == text_of(graph.personas),
        context.task_text is Template <==> graph.version >= 4,
{
    a_name_is_placed(check.scratch@, name);
}

} // verus!
