//! Stamping a member's own values into one side's resolved oneharness config.
//!
//! Every value stamped is the member's rather than the config file's, and cannot
//! be exported: one process drives every member of the graph.

use vstd::prelude::*;
use vstd::string::StringExecFns;

use crate::anchor::seen;
use crate::error::Error;
use crate::keyed::{before, is_before, order_is_total, order_is_transitive};
use crate::text::{characters, join, quote, quoted, same, separated, spelled, texts_of};
use crate::toml::{
    entries_of, read_array, set_in, set_key, set_under, toml_array, toml_set, toml_set_in,
    toml_set_under, Edited, EditedText,
};

verus! {

/// Whether an outcome is the text named, or the refusal named.
pub open spec fn says(outcome: Result<String, Error>, wanted: Result<Seq<char>, Seq<char>>) -> bool {
    match wanted {
        Ok(text) => outcome matches Ok(found) && found@ == text,
        Err(why) => outcome matches Err(Error::InvalidConfig(found)) && found@ == why,
    }
}

/// The harness family an identity belongs to: what stands before its first `:`.
pub open spec fn family_of(identity: Seq<char>) -> Seq<char>
    decreases identity.len(),
{
    if identity.len() == 0 || identity[0] == ':' {
        seq![]
    } else {
        seq![identity[0]] + family_of(identity.drop_first())
    }
}

fn take_family(identity: &str) -> (family: String)
    ensures
        family@ == family_of(identity@),
{
    let all = characters(identity);
    let mut end: usize = 0;
    assert(all@.skip(0) =~= all@);
    assert(all@.take(0) + family_of(all@) =~= family_of(all@));
    while end < all.len() && all[end] != ':'
        invariant
            end <= all@.len(),
            family_of(all@) == all@.take(end as int) + family_of(all@.skip(end as int)),
        decreases all@.len() - end,
    {
        let ghost rest = all@.skip(end as int);
        assert(rest.drop_first() =~= all@.skip(end + 1));
        assert(all@.take(end + 1) + family_of(rest.drop_first()) =~= all@.take(end as int)
            + family_of(rest));
        end = end + 1;
    }
    assert(family_of(all@.skip(end as int)) =~= seq![]);
    let family = spelled(&all, 0, end);
    assert(family@ =~= all@.take(end as int) + family_of(all@.skip(end as int)));
    family
}

/// A name put into an ascending list of names, unless it is there already.
pub open spec fn with_name(names: Seq<Seq<char>>, name: Seq<char>) -> Seq<Seq<char>>
    decreases names.len(),
{
    if names.len() == 0 {
        seq![name]
    } else if names[0] == name {
        names
    } else if before(name, names[0]) {
        seq![name] + names
    } else {
        seq![names[0]] + with_name(names.drop_first(), name)
    }
}

/// The harness families a chain names, each once and in ascending order.
pub open spec fn families_of(chain: Seq<Option<Seq<char>>>) -> Seq<Seq<char>>
    decreases chain.len(),
{
    if chain.len() == 0 {
        seq![]
    } else {
        with_name(families_of(chain.drop_last()), family_of(chain.last()->0))
    }
}

/// Whether every entry of a chain is a string.
pub open spec fn all_strings(chain: Seq<Option<Seq<char>>>) -> bool {
    forall|i: int| 0 <= i < chain.len() ==> (#[trigger] chain[i]) is Some
}

fn put_name(names: &mut Vec<String>, name: String)
    ensures
        texts_of(final(names)@) == with_name(texts_of(old(names)@), name@),
{
    let ghost list = texts_of(names@);
    let ghost wanted = name@;
    let mut at: usize = 0;
    assert(list.skip(0) =~= list);
    assert(list.take(0) + with_name(list, wanted) =~= with_name(list, wanted));
    while at < names.len() && !same(names[at].as_str(), name.as_str()) && !is_before(
        name.as_str(),
        names[at].as_str(),
    )
        invariant
            at <= names@.len(),
            list == texts_of(names@),
            wanted == name@,
            with_name(list, wanted) == list.take(at as int) + with_name(
                list.skip(at as int),
                wanted,
            ),
        decreases names@.len() - at,
    {
        let ghost rest = list.skip(at as int);
        assert(rest[0] == names@[at as int]@);
        assert(rest.drop_first() =~= list.skip(at + 1));
        assert(list.take(at + 1) + with_name(rest.drop_first(), wanted) =~= list.take(at as int)
            + with_name(rest, wanted));
        at = at + 1;
    }
    let ghost rest = list.skip(at as int);
    if at < names.len() && same(names[at].as_str(), name.as_str()) {
        assert(rest[0] == names@[at as int]@);
        assert(list.take(at as int) + rest =~= list);
    } else {
        proof {
            if at < names@.len() {
                assert(rest[0] == names@[at as int]@);
            } else {
                assert(rest =~= seq![]);
            }
        }
        names.insert(at, name);
        assert(texts_of(names@) =~= list.take(at as int) + (seq![wanted] + rest));
        assert(with_name(rest, wanted) =~= seq![wanted] + rest);
    }
}

/// What is wrong with a chain a model is to be paired with, when something is.
pub open spec fn chain_refusal(origin: Seq<char>, chain: Option<Seq<Option<Seq<char>>>>) -> Option<
    Seq<char>,
> {
    match chain {
        None => Some(
            origin
                + " declares no `harnesses` chain, so there is nothing a model could be paired with"@,
        ),
        Some(chain) => if !all_strings(chain) {
            Some(origin + ": every entry in `harnesses` must be a string"@)
        } else if chain.len() == 0 {
            Some(
                origin
                    + " declares an empty `harnesses` chain, so there is nothing a model could be paired with"@,
            )
        } else {
            None
        },
    }
}

fn refuse_text<T>(origin: &str, rest: &str) -> (outcome: Result<T, Error>)
    ensures
        outcome matches Err(Error::InvalidConfig(why)) && why@ == origin@ + rest@,
{
    let mut why = String::from_str(origin);
    why.append(rest);
    Err(Error::InvalidConfig(why))
}

/// The harness families one config's chain names: what stands before an entry's
/// first colon.
#[verifier::loop_isolation(false)]
fn harness_families(chain: &Option<Vec<Option<String>>>, origin: &str) -> (families: Result<
    Vec<String>,
    Error,
>)
    ensures
        ({
            let entries = match *chain {
                Some(entries) => Some(entries_of(entries@)),
                None => None,
            };
            match chain_refusal(origin@, entries) {
                Some(why) => families matches Err(Error::InvalidConfig(found)) && found@ == why,
                None => families matches Ok(names) && texts_of(names@) == families_of(entries->0)
                    && names@.len() > 0,
            }
        }),
{
    let chain = match chain {
        Some(chain) => chain,
        None => return refuse_text(
            origin,
            " declares no `harnesses` chain, so there is nothing a model could be paired with",
        ),
    };
    let ghost entries = entries_of(chain@);
    let mut families: Vec<String> = Vec::new();
    let mut at: usize = 0;
    proof {
        assert(entries.take(0) =~= seq![]);
        assert(texts_of(families@) =~= seq![]);
    }
    while at < chain.len()
        invariant
            at <= chain@.len(),
            entries == entries_of(chain@),
            texts_of(families@) == families_of(entries.take(at as int)),
            forall|i: int| 0 <= i < at ==> (#[trigger] entries[i]) is Some,
            at > 0 ==> families@.len() > 0,
        decreases chain@.len() - at,
    {
        match &chain[at] {
            None => {
                assert(entries[at as int] is None);
                return refuse_text(origin, ": every entry in `harnesses` must be a string");
            },
            Some(identity) => {
                let ghost longer = entries.take(at + 1);
                assert(longer.drop_last() =~= entries.take(at as int));
                assert(longer.last() == Some(identity@));
                put_name(&mut families, take_family(identity.as_str()));
                proof {
                    assert(texts_of(families@) == families_of(longer));
                    assert(families_of(longer).len() > 0);
                    assert(texts_of(families@).len() == families@.len());
                }
            },
        }
        at = at + 1;
    }
    assert(entries.take(at as int) =~= entries);
    if chain.len() == 0 {
        return refuse_text(
            origin,
            " declares an empty `harnesses` chain, so there is nothing a model could be paired with",
        );
    }
    Ok(families)
}

/// A text that is not TOML.
pub open spec fn not_toml(origin: Seq<char>, why: Seq<char>) -> Seq<char> {
    origin + " is not valid TOML: "@ + why
}

fn say_not_toml(origin: &str, why: &str) -> (text: String)
    ensures
        text@ == not_toml(origin@, why@),
{
    let mut text = String::from_str(origin);
    text.append(" is not valid TOML: ");
    text.append(why);
    text
}

/// A chain that one model cannot be paired with.
pub open spec fn unpaired(origin: Seq<char>, model: Seq<char>, families: Seq<Seq<char>>) -> Seq<
    char,
> {
    "model "@ + quoted(model) + ": "@ + origin + " declares a chain spanning "@ + separated(
        families,
        ", "@,
    )
        + ", and one model cannot name a model of each. A model override must be paired with a config whose chain is one harness family."@
}

/// Whether a stamped config names the same chain: which identity runs is the
/// config's alone to say, whatever is stamped into it.
pub open spec fn keeps_the_chain(stamped: Result<String, Error>, config: Seq<char>) -> bool {
    stamped matches Ok(text) ==> toml_array(text@, "harnesses"@) == toml_array(
        config,
        "harnesses"@,
    )
}

/// One side's config with `model` in the section of the family it is paired with.
pub open spec fn model_stamped(config: Seq<char>, origin: Seq<char>, model: Seq<char>) -> Result<
    Seq<char>,
    Seq<char>,
> {
    match toml_array(config, "harnesses"@) {
        Err(why) => Err(not_toml(origin, why)),
        Ok(chain) => match chain_refusal(origin, chain) {
            Some(why) => Err(why),
            None => {
                let families = families_of(chain->0);
                if families.len() > 1 {
                    Err(unpaired(origin, model, families))
                } else {
                    match toml_set_under(config, "harness"@, families[0], "model"@, model) {
                        EditedText::Done(text) => Ok(text),
                        EditedText::NotToml(why) => Err(not_toml(origin, why)),
                        EditedText::TableBlocked => Err(
                            origin + ": `harness` must be a table of per-harness settings"@,
                        ),
                        EditedText::SectionBlocked => Err(
                            origin + (": `harness."@ + families[0] + "` must be a table"@),
                        ),
                    }
                }
            },
        },
    }
}

/// Stamp `model` into the section of one side's config that its chain's family has.
///
/// Refused when the config is not TOML, declares no chain, or declares one
/// spanning more than one harness family: one model applies to whichever candidate
/// the chain settles on, so an unpaired model would reach a candidate of another
/// provider.
pub fn stamp_model(config: &str, origin: &str, model: &str) -> (stamped: Result<String, Error>)
    ensures
        says(stamped, model_stamped(config@, origin@, model@)),
        keeps_the_chain(stamped, config@),
{
    let chain = match read_array(config, "harnesses") {
        Ok(chain) => chain,
        Err(why) => return Err(Error::InvalidConfig(say_not_toml(origin, why.as_str()))),
    };
    let families = match harness_families(&chain, origin) {
        Ok(families) => families,
        Err(refused) => return Err(refused),
    };
    if families.len() > 1 {
        let mut why = String::from_str("model ");
        why.append(quote(model).as_str());
        why.append(": ");
        why.append(origin);
        why.append(" declares a chain spanning ");
        why.append(join(&families, ", ").as_str());
        why.append(
            ", and one model cannot name a model of each. A model override must be paired with a config whose chain is one harness family.",
        );
        assert(texts_of(families@).len() == families@.len());
        return Err(Error::InvalidConfig(why));
    }
    assert(texts_of(families@)[0] == families@[0]@);
    let family = families[0].as_str();
    match set_under(config, "harness", family, "model", model) {
        Edited::Done(text) => Ok(text),
        Edited::NotToml(why) => Err(Error::InvalidConfig(say_not_toml(origin, why.as_str()))),
        Edited::TableBlocked => refuse_text(
            origin,
            ": `harness` must be a table of per-harness settings",
        ),
        Edited::SectionBlocked => {
            let mut rest = String::from_str(": `harness.");
            rest.append(family);
            rest.append("` must be a table");
            refuse_text(origin, rest.as_str())
        },
    }
}

/// What one conversation side's resolved config carries beyond what its author
/// wrote.
#[derive(Debug, Clone, Copy)]
pub struct Side<'a> {
    /// A `model` override to pair with the config's chain.
    pub model: Option<&'a str>,
    /// The member's approval mode.
    pub mode: Option<&'a str>,
    /// The variable the ownership stamp is carried in, and the member's scratch
    /// directory it names.
    pub scratch: Option<(&'a str, &'a str)>,
}

impl<'a> Side<'a> {
    /// A side with nothing of its own to carry.
    pub fn plain() -> (side: Self)
        ensures
            side.model is None && side.mode is None && side.scratch is None,
    {
        Side { model: None, mode: None, scratch: None }
    }
}

/// One side's config with a model stamped, where there is one.
pub open spec fn paired(config: Seq<char>, origin: Seq<char>, model: Option<Seq<char>>) -> Result<
    Seq<char>,
    Seq<char>,
> {
    match model {
        Some(model) => model_stamped(config, origin, model),
        None => Ok(config),
    }
}

/// A config with an approval mode, where there is one.
pub open spec fn moded(config: Seq<char>, origin: Seq<char>, mode: Option<Seq<char>>) -> Result<
    Seq<char>,
    Seq<char>,
> {
    match mode {
        None => Ok(config),
        Some(mode) => match toml_set(config, "mode"@, mode) {
            EditedText::Done(text) => Ok(text),
            EditedText::NotToml(why) => Err(not_toml(origin, why)),
            _ => Ok(config),
        },
    }
}

/// A config with an ownership stamp, where there is one: the variable and the
/// directory it names.
pub open spec fn owned(
    config: Seq<char>,
    origin: Seq<char>,
    scratch: Option<(Seq<char>, Seq<char>)>,
) -> Result<Seq<char>, Seq<char>> {
    match scratch {
        None => Ok(config),
        Some((key, path)) => match toml_set_in(config, "env"@, key, path) {
            EditedText::Done(text) => Ok(text),
            EditedText::NotToml(why) => Err(not_toml(origin, why)),
            _ => Err(origin + ": `env` must be a table of environment values"@),
        },
    }
}

/// One side's config with these values stamped into it.
pub open spec fn stamped_with(
    config: Seq<char>,
    origin: Seq<char>,
    model: Option<Seq<char>>,
    mode: Option<Seq<char>>,
    scratch: Option<(Seq<char>, Seq<char>)>,
) -> Result<Seq<char>, Seq<char>> {
    match paired(config, origin, model) {
        Err(why) => Err(why),
        Ok(text) => match moded(text, origin, mode) {
            Err(why) => Err(why),
            Ok(text) => owned(text, origin, scratch),
        },
    }
}

/// One side's config with the side's own values stamped into it.
pub open spec fn side_stamped(config: Seq<char>, origin: Seq<char>, side: Side<'_>) -> Result<
    Seq<char>,
    Seq<char>,
> {
    stamped_with(
        config,
        origin,
        seen(side.model),
        seen(side.mode),
        match side.scratch {
            Some((key, path)) => Some((key@, path@)),
            None => None,
        },
    )
}

/// Stamp one side's own values into its resolved config.
///
/// A side with nothing to stamp is returned untouched. Refused when the config is
/// not TOML, when its `env` is not a table, or when a `model` breaks the pairing
/// rule; see [`stamp_model`].
pub fn stamp_side(config: &str, origin: &str, side: Side<'_>) -> (stamped: Result<String, Error>)
    ensures
        says(stamped, side_stamped(config@, origin@, side)),
        keeps_the_chain(stamped, config@),
{
    proof {
        reveal_strlit("mode");
        reveal_strlit("harnesses");
        assert("mode"@.len() != "harnesses"@.len());
    }
    let mut text = match side.model {
        Some(model) => match stamp_model(config, origin, model) {
            Ok(text) => text,
            Err(refused) => return Err(refused),
        },
        None => String::from_str(config),
    };
    if let Some(mode) = side.mode {
        match set_key(text.as_str(), "mode", mode) {
            Edited::Done(edited) => {
                text = edited;
            },
            Edited::NotToml(why) => return Err(
                Error::InvalidConfig(say_not_toml(origin, why.as_str())),
            ),
            _ => {},
        }
    }
    if let Some((key, path)) = side.scratch {
        match set_in(text.as_str(), "env", key, path) {
            Edited::Done(edited) => {
                text = edited;
            },
            Edited::NotToml(why) => return Err(
                Error::InvalidConfig(say_not_toml(origin, why.as_str())),
            ),
            _ => return refuse_text(origin, ": `env` must be a table of environment values"),
        }
    }
    Ok(text)
}

/// Whether names are in ascending order, each once.
pub open spec fn ascending(names: Seq<Seq<char>>) -> bool {
    forall|i: int, j: int|
        0 <= i < j < names.len() ==> before(#[trigger] names[i], #[trigger] names[j])
}

proof fn a_name_goes_where_it_belongs(names: Seq<Seq<char>>, name: Seq<char>)
    requires
        ascending(names),
    ensures
        ascending(with_name(names, name)),
        forall|other: Seq<char>|
            #[trigger] with_name(names, name).contains(other) <==> names.contains(other) || other == name,
    decreases names.len(),
{
    let placed = with_name(names, name);
    if names.len() == 0 {
        assert(placed[0] == name);
        assert forall|other: Seq<char>| #[trigger] placed.contains(other) <==> names.contains(other) || other
            == name by {
            if other == name {
                assert(placed[0] == other);
            }
        }
    } else if names[0] == name {
        assert(names.contains(name));
    } else if before(name, names[0]) {
        assert forall|i: int, j: int| 0 <= i < j < placed.len() implies before(
            #[trigger] placed[i],
            #[trigger] placed[j],
        ) by {
            assert(placed[j] == names[j - 1]);
            if i == 0 {
                if j > 1 {
                    assert(before(names[0], names[j - 1]));
                    order_is_transitive(name, names[0], names[j - 1]);
                }
            } else {
                assert(placed[i] == names[i - 1]);
            }
        }
        assert forall|other: Seq<char>| #[trigger] placed.contains(other) <==> names.contains(other) || other
            == name by {
            if names.contains(other) {
                let k = choose|k: int| 0 <= k < names.len() && names[k] == other;
                assert(placed[k + 1] == other);
            }
            if other == name {
                assert(placed[0] == other);
            }
            if placed.contains(other) {
                let k = choose|k: int| 0 <= k < placed.len() && placed[k] == other;
                if k > 0 {
                    assert(names[k - 1] == other);
                }
            }
        }
    } else {
        let rest = names.drop_first();
        assert(ascending(rest)) by {
            assert forall|i: int, j: int| 0 <= i < j < rest.len() implies before(
                #[trigger] rest[i],
                #[trigger] rest[j],
            ) by {
                assert(before(names[i + 1], names[j + 1]));
            }
        }
        a_name_goes_where_it_belongs(rest, name);
        let inner = with_name(rest, name);
        order_is_total(names[0], name);
        assert forall|i: int, j: int| 0 <= i < j < placed.len() implies before(
            #[trigger] placed[i],
            #[trigger] placed[j],
        ) by {
            assert(placed[j] == inner[j - 1]);
            if i > 0 {
                assert(placed[i] == inner[i - 1]);
                assert(before(inner[i - 1], inner[j - 1]));
            } else {
                assert(inner.contains(inner[j - 1]));
                if rest.contains(inner[j - 1]) {
                    let k = choose|k: int| 0 <= k < rest.len() && rest[k] == inner[j - 1];
                    assert(before(names[0], names[k + 1]));
                }
            }
        }
        assert forall|other: Seq<char>| #[trigger] placed.contains(other) <==> names.contains(other) || other
            == name by {
            if placed.contains(other) {
                let k = choose|k: int| 0 <= k < placed.len() && placed[k] == other;
                if k > 0 {
                    assert(inner[k - 1] == other);
                    assert(inner.contains(other));
                    if rest.contains(other) {
                        let m = choose|m: int| 0 <= m < rest.len() && rest[m] == other;
                        assert(names[m + 1] == other);
                    }
                } else {
                    assert(names[0] == other);
                }
            }
            if names.contains(other) || other == name {
                if other == names[0] {
                    assert(placed[0] == other);
                } else {
                    if names.contains(other) {
                        let m = choose|m: int| 0 <= m < names.len() && names[m] == other;
                        assert(rest[m - 1] == other);
                        assert(rest.contains(other));
                    }
                    assert(inner.contains(other));
                    let k = choose|k: int| 0 <= k < inner.len() && inner[k] == other;
                    assert(placed[k + 1] == other);
                }
            }
        }
    }
}

/// The families of a chain are named in ascending order, each once, and they are
/// the families of its entries and no others.
pub proof fn a_chains_families_are_its_entries(chain: Seq<Option<Seq<char>>>)
    requires
        all_strings(chain),
    ensures
        ascending(families_of(chain)),
        forall|i: int|
            0 <= i < chain.len() ==> families_of(chain).contains(
                family_of((#[trigger] chain[i])->0),
            ),
        forall|name: Seq<char>| #[trigger]
            families_of(chain).contains(name) ==> exists|i: int|
                0 <= i < chain.len() && family_of((#[trigger] chain[i])->0) == name,
    decreases chain.len(),
{
    if chain.len() > 0 {
        let rest = chain.drop_last();
        assert(all_strings(rest)) by {
            assert forall|i: int| 0 <= i < rest.len() implies (#[trigger] rest[i]) is Some by {
                assert(rest[i] == chain[i]);
            }
        }
        a_chains_families_are_its_entries(rest);
        let last = family_of(chain.last()->0);
        a_name_goes_where_it_belongs(families_of(rest), last);
        assert forall|i: int| 0 <= i < chain.len() implies families_of(chain).contains(
            family_of((#[trigger] chain[i])->0),
        ) by {
            let name = family_of(chain[i]->0);
            if i < rest.len() {
                assert(rest[i] == chain[i]);
                assert(families_of(rest).contains(name));
            }
            assert(with_name(families_of(rest), last).contains(name));
        }
        assert forall|name: Seq<char>| #[trigger] families_of(chain).contains(name) implies exists|
            i: int,
        |
            0 <= i < chain.len() && family_of((#[trigger] chain[i])->0) == name by {
            if families_of(rest).contains(name) {
                let i = choose|i: int|
                    0 <= i < rest.len() && family_of((#[trigger] rest[i])->0) == name;
                assert(chain[i] == rest[i]);
            } else {
                assert(chain[chain.len() - 1] == chain.last());
            }
        }
    } else {
        assert(families_of(chain) =~= seq![]);
    }
}

/// The pairing rule: a model is stamped only into a config whose chain holds at
/// least one entry and names one harness family throughout.
pub proof fn a_stamped_models_chain_is_one_family(
    config: Seq<char>,
    origin: Seq<char>,
    model: Seq<char>,
)
    requires
        model_stamped(config, origin, model) is Ok,
    ensures
        toml_array(config, "harnesses"@) matches Ok(Some(chain)) && chain.len() > 0 && all_strings(
            chain,
        ) && forall|i: int, j: int|
            0 <= i < chain.len() && 0 <= j < chain.len() ==> family_of((#[trigger] chain[i])->0)
                == family_of((#[trigger] chain[j])->0),
{
    let chain = toml_array(config, "harnesses"@)->Ok_0->0;
    a_chains_families_are_its_entries(chain);
    let families = families_of(chain);
    assert forall|i: int, j: int| 0 <= i < chain.len() && 0 <= j < chain.len() implies family_of(
        (#[trigger] chain[i])->0,
    ) == family_of((#[trigger] chain[j])->0) by {
        assert(families.contains(family_of(chain[i]->0)));
        assert(families.contains(family_of(chain[j]->0)));
    }
}

} // verus!
