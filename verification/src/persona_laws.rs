//! Which personas are found, and what checking them comes to.

use vstd::prelude::*;

use crate::catalog::{
    check_personas, chosen, complain, complaints, complaints_among, failures_among, in_order,
    personas_under, role, role_of, walk_refusal, Checked, Entry, Role, Target,
};
use crate::error::Error;
use crate::launch_laws::{a_name_is_placed, placed_in};
use crate::persona::{
    catalog_entry, catalog_file, catalog_root, load_persona, persona_document, Persona,
    PersonaSource, Stat,
};
use crate::text::{decimal, text_of, texts_of};

verus! {

// ---- Which document a name is ----
/// A catalog is used where the graph named one that could be opened, is not needed where
/// it named none, and is refused where it could not be opened.
pub proof fn a_catalog_is_read_or_refused(
    root: Option<String>,
    opened: Result<(), String>,
    catalog: Result<Option<String>, Error>,
)
    requires
        call_ensures(catalog_root, (root, opened), catalog),
    ensures
        catalog is Err <==> root is Some && opened is Err,
        catalog matches Ok(found) ==> found == root,
        catalog matches Err(error) ==> error is InvalidConfig,
{
}

/// A name is looked up in a catalog as a document of its own.
pub proof fn a_name_is_a_document_of_its_catalog(root: &str, name: &str, file: String)
    requires
        call_ensures(catalog_entry, (root, name), file),
        name@.len() > 0,
        name@[0] != '/',
    ensures
        placed_in(file@, root@, name@ + ".yaml"@),
{
    assert((name@ + ".yaml"@)[0] == name@[0]);
    a_name_is_placed(root@, name@ + ".yaml"@);
}

/// Only a file is a hit and only absence or something else by that name is a miss: an
/// entry the filesystem will not describe is refused.
pub proof fn only_absence_is_a_miss(
    name: &str,
    file: String,
    stat: Stat,
    found: Result<Option<String>, Error>,
)
    requires
        call_ensures(catalog_file, (name, file, stat), found),
    ensures
        stat is File ==> found == Ok::<Option<String>, Error>(Some(file)),
        stat is NotFile || stat is Missing ==> found == Ok::<Option<String>, Error>(None),
        stat is Refused <==> found is Err,
{
}

/// A ref that is no persona's name is read as the ref it is; a name that both catalogs
/// hold is refused, and so is one that neither does where the graph named a catalog; a
/// name that one of them holds is that document.
pub proof fn a_name_is_never_ambiguous(
    name: &str,
    named: bool,
    held: Option<String>,
    shipped: Option<String>,
    root: &Option<String>,
    shipped_names: &Vec<String>,
    source: Result<PersonaSource, Error>,
)
    requires
        call_ensures(persona_document, (name, named, held, shipped, root, shipped_names), source),
    ensures
        source is Err <==> named && ((held is Some && shipped is Some) || (held is None
            && shipped is None && *root is Some)),
        !named ==> source == Ok::<PersonaSource, Error>(PersonaSource::Reference),
        named && held is Some && shipped is None ==> source == Ok::<PersonaSource, Error>(
            PersonaSource::Catalog(held->0),
        ),
        named && held is None && shipped is Some ==> source == Ok::<PersonaSource, Error>(
            PersonaSource::Shipped(shipped->0),
        ),
        named && held is None && shipped is None && *root is None ==> source == Ok::<
            PersonaSource,
            Error,
        >(PersonaSource::Reference),
        source matches Err(error) ==> error is InvalidConfig,
{
}

/// A persona with anything wrong with it is refused, and any other is known by its own
/// label, where it gives one.
pub proof fn a_faulty_persona_is_refused(
    reference: &str,
    origin: &str,
    persona: Persona,
    label: Result<Option<String>, Error>,
    stem: Option<String>,
)
    requires
        call_ensures(load_persona, (reference, origin, persona), label),
        call_ensures(crate::persona::file_stem, (reference,), stem),
    ensures
        label is Err <==> persona.errors@.len() > 0,
        label is Ok && persona.label is Some ==> text_of(label->Ok_0) == text_of(persona.label),
        label is Ok && persona.label is None ==> text_of(label->Ok_0) == text_of(stem),
        label matches Err(error) ==> error is InvalidConfig,
{
}

// ---- Walking a directory ----
/// Whether a name ends in the extension of a persona, with something before it.
pub open spec fn is_document(name: Seq<char>) -> bool {
    name.len() > 5 && name.skip(name.len() - 5) == seq!['.', 'y', 'a', 'm', 'l']
}

proof fn a_document_is_named_with_its_extension(name: Seq<char>)
    ensures
        crate::catalog::is_yaml(name) <==> is_document(name),
{
    reveal_strlit(".yaml");
    assert(".yaml"@ =~= seq!['.', 'y', 'a', 'm', 'l']);
    let dot = crate::persona::last_dot(name);
    a_dot_is_where_it_is(name);
    if crate::catalog::is_yaml(name) {
        assert(name.skip(dot).len() == 5);
        assert(dot == name.len() - 5);
    }
    if is_document(name) {
        let tail = name.skip(name.len() - 5);
        let at = name.len() - 5;
        assert(tail[0] == name[at]);
        assert(tail[1] == name[at + 1]);
        assert(tail[2] == name[at + 2]);
        assert(tail[3] == name[at + 3]);
        assert(tail[4] == name[at + 4]);
        assert(dot == at);
    }
}

proof fn a_dot_is_where_it_is(name: Seq<char>)
    ensures
        ({
            let dot = crate::persona::last_dot(name);
            &&& -1 <= dot < name.len()
            &&& dot >= 0 ==> name[dot] == '.'
            &&& forall|i: int| dot < i < name.len() ==> #[trigger] name[i] != '.'
        }),
    decreases name.len(),
{
    if name.len() > 0 && name.last() != '.' {
        a_dot_is_where_it_is(name.drop_last());
        let dot = crate::persona::last_dot(name);
        assert forall|i: int| dot < i < name.len() implies #[trigger] name[i] != '.' by {
            if i < name.len() - 1 {
                assert(name.drop_last()[i] == name[i]);
            }
        }
    }
}

/// A walk leaves what begins with an underscore, file or directory, walks every other
/// directory, and checks every other file that is named as a persona is.
pub proof fn a_walk_skips_the_scaffold(entry: &Entry, found: Role)
    requires
        call_ensures(role, (entry,), found),
    ensures
        ({
            let scaffold = entry.is_text && entry.name@.len() > 0 && entry.name@[0] == '_';
            &&& found is Descend <==> !scaffold && entry.is_dir
            &&& found is Persona <==> !scaffold && !entry.is_dir && is_document(entry.name@)
            &&& found is Skip <==> scaffold || (!entry.is_dir && !is_document(entry.name@))
        }),
{
    a_document_is_named_with_its_extension(entry.name@);
}

/// What a walk takes from a directory is exactly its entries of that role.
pub proof fn a_walk_takes_every_entry_of_a_role(
    entries: Seq<Result<Entry, String>>,
    wanted: Role,
    path: Seq<char>,
)
    ensures
        chosen(entries, wanted).contains(path) <==> exists|i: int|
            0 <= i < entries.len() && ((#[trigger] entries[i]) matches Ok(entry) && role_of(entry)
                == wanted && entry.path@ == path),
    decreases entries.len(),
{
    if entries.len() > 0 {
        let rest = entries.drop_last();
        a_walk_takes_every_entry_of_a_role(rest, wanted, path);
        let whole = chosen(entries, wanted);
        let earlier = chosen(rest, wanted);
        if whole.contains(path) {
            let k = choose|k: int| 0 <= k < whole.len() && whole[k] == path;
            if k < earlier.len() {
                assert(earlier[k] == path);
                let i = choose|i: int|
                    0 <= i < rest.len() && ((#[trigger] rest[i]) matches Ok(entry) && role_of(entry)
                        == wanted && entry.path@ == path);
                assert(entries[i] == rest[i]);
            } else {
                assert(entries[entries.len() - 1] is Ok);
            }
        }
        if exists|i: int|
            0 <= i < entries.len() && ((#[trigger] entries[i]) matches Ok(entry) && role_of(entry)
                == wanted && entry.path@ == path) {
            let i = choose|i: int|
                0 <= i < entries.len() && ((#[trigger] entries[i]) matches Ok(entry) && role_of(
                    entry,
                ) == wanted && entry.path@ == path);
            if i < rest.len() {
                assert(rest[i] == entries[i]);
                let k = choose|k: int| 0 <= k < earlier.len() && earlier[k] == path;
                assert(whole[k] == path);
            } else {
                assert(whole[earlier.len() as int] == path);
            }
        }
    }
}

/// A walk stops over a directory it cannot read, and over any entry of one that it cannot.
pub proof fn a_walk_stops_over_what_it_cannot_read(
    dir: Seq<char>,
    entries: Result<Vec<Result<Entry, String>>, String>,
)
    ensures
        walk_refusal(dir, entries) is None <==> (entries matches Ok(read) && forall|i: int|
            0 <= i < read@.len() ==> (#[trigger] read@[i]) is Ok),
{
    if let Ok(read) = entries {
        an_unread_entry_is_found(dir, read@);
    }
}

proof fn an_unread_entry_is_found(dir: Seq<char>, entries: Seq<Result<Entry, String>>)
    ensures
        crate::catalog::first_unread(dir, entries) is None <==> forall|i: int|
            0 <= i < entries.len() ==> (#[trigger] entries[i]) is Ok,
    decreases entries.len(),
{
    if entries.len() > 0 {
        let rest = entries.drop_last();
        an_unread_entry_is_found(dir, rest);
        if crate::catalog::first_unread(dir, entries) is None {
            assert forall|i: int| 0 <= i < entries.len() implies (#[trigger] entries[i]) is Ok by {
                if i < rest.len() {
                    assert(rest[i] is Ok);
                }
            }
        }
        if forall|i: int| 0 <= i < entries.len() ==> (#[trigger] entries[i]) is Ok {
            assert forall|i: int| 0 <= i < rest.len() implies (#[trigger] rest[i]) is Ok by {
                assert(entries[i] is Ok);
            }
            assert(entries[entries.len() - 1] is Ok);
        }
    }
}

/// A file is the one persona it is, a directory is the personas that were found in it, each
/// of them once and in order, and what is neither, or holds none, is refused.
pub proof fn a_path_names_its_personas(
    path: &str,
    target: Target,
    found: Vec<String>,
    personas: Result<Vec<String>, Error>,
    wanted: Seq<char>,
)
    requires
        call_ensures(personas_under, (path, target, found), personas),
    ensures
        personas is Err <==> target is Missing || (target is Directory && found@.len() == 0),
        target is File ==> personas->Ok_0@.len() == 1 && personas->Ok_0@[0]@ == path@,
        target is Directory && personas is Ok ==> personas->Ok_0@.len() == found@.len() && (texts_of(
            personas->Ok_0@,
        ).contains(wanted) <==> texts_of(found@).contains(wanted)) && in_order(
            texts_of(personas->Ok_0@),
        ),
{
    broadcast use vstd::seq_lib::group_to_multiset_ensures;

    if let Ok(named) = personas {
        let (listed, walked) = (texts_of(named@), texts_of(found@));
        assert(listed.len() == named@.len());
        assert(walked.len() == found@.len());
        if target is File {
            assert(listed[0] == named@[0]@);
        }
        if target is Directory {
            assert(listed.to_multiset().len() == listed.len());
            assert(walked.to_multiset().len() == walked.len());
            assert(listed.contains(wanted) <==> listed.to_multiset().count(wanted) > 0);
            assert(walked.contains(wanted) <==> walked.to_multiset().count(wanted) > 0);
        }
    }
}

// ---- Checking ----
/// Whether something is wrong with a persona: it could not be read as one, or it was and
/// there is a fault in it.
pub open spec fn faulty(checked: Checked) -> bool {
    checked is Unparsed || checked->Parsed_0@.len() > 0
}

/// What is said of one persona is every fault it has, by its name, and that it could not
/// be read where it could not; it failed exactly where anything is said.
pub proof fn every_fault_is_said(name: &str, checked: &Checked, said: (Vec<String>, bool))
    requires
        call_ensures(complain, (name, checked), said),
    ensures
        said.1 <==> faulty(*checked),
        said.1 <==> said.0@.len() > 0,
        *checked matches Checked::Parsed(errors) ==> said.0@.len() == errors@.len() && forall|
            i: int,
        |
            0 <= i < errors@.len() ==> (#[trigger] said.0@[i])@ == name@ + ": "@ + errors@[i]@,
{
    let lines = texts_of(said.0@);
    assert(lines.len() == said.0@.len());
    if let Checked::Parsed(errors) = *checked {
        assert(lines.len() == texts_of(errors@).len());
        assert forall|i: int| 0 <= i < errors@.len() implies (#[trigger] said.0@[i])@ == name@
            + ": "@ + errors@[i]@ by {
            assert(lines[i] == said.0@[i]@);
            assert(texts_of(errors@)[i] == errors@[i]@);
        }
    }
}

/// How many personas of a list are faulty.
pub open spec fn faults(checked: Seq<(String, Checked)>) -> nat
    decreases checked.len(),
{
    if checked.len() == 0 {
        0
    } else {
        faults(checked.drop_last()) + if faulty(checked.last().1) {
            1nat
        } else {
            0
        }
    }
}

proof fn failures_are_faults(checked: Seq<(String, Checked)>, upto: nat)
    requires
        upto <= checked.len(),
    ensures
        failures_among(checked, upto) == faults(checked.take(upto as int)),
    decreases upto,
{
    if upto > 0 {
        failures_are_faults(checked, (upto - 1) as nat);
        assert(checked.take(upto as int).drop_last() =~= checked.take(upto - 1));
        assert(checked.take(upto as int).last() == checked[upto - 1]);
    }
}

proof fn no_faults_is_no_faulty_one(checked: Seq<(String, Checked)>)
    ensures
        faults(checked) == 0 <==> forall|i: int|
            0 <= i < checked.len() ==> !faulty((#[trigger] checked[i]).1),
    decreases checked.len(),
{
    if checked.len() > 0 {
        let rest = checked.drop_last();
        no_faults_is_no_faulty_one(rest);
        if faults(checked) == 0 {
            assert forall|i: int| 0 <= i < checked.len() implies !faulty(
                (#[trigger] checked[i]).1,
            ) by {
                if i < rest.len() {
                    assert(!faulty(rest[i].1));
                }
            }
        }
        if forall|i: int| 0 <= i < checked.len() ==> !faulty((#[trigger] checked[i]).1) {
            assert forall|i: int| 0 <= i < rest.len() implies !faulty((#[trigger] rest[i]).1) by {
                assert(!faulty(checked[i].1));
            }
            assert(!faulty(checked[checked.len() - 1].1));
        }
    }
}

proof fn a_fault_is_among_the_complaints(
    checked: Seq<(String, Checked)>,
    upto: nat,
    at: int,
    fault: int,
)
    requires
        0 <= at < upto <= checked.len(),
        checked[at].1 matches Checked::Parsed(errors) && 0 <= fault < errors@.len(),
    ensures
        complaints_among(checked, upto).contains(
            checked[at].0@ + ": "@ + checked[at].1->Parsed_0@[fault]@,
        ),
    decreases upto,
{
    let last = (upto - 1) as nat;
    let earlier = complaints_among(checked, last);
    let own = complaints(checked[upto - 1].0@, checked[upto - 1].1);
    let whole = complaints_among(checked, upto);
    let wanted = checked[at].0@ + ": "@ + checked[at].1->Parsed_0@[fault]@;
    if at == upto - 1 {
        assert(texts_of(checked[at].1->Parsed_0@)[fault] == checked[at].1->Parsed_0@[fault]@);
        assert(own[fault] == wanted);
        assert(whole[earlier.len() + fault] == wanted);
    } else {
        a_fault_is_among_the_complaints(checked, last, at, fault);
        let k = choose|k: int| 0 <= k < earlier.len() && earlier[k] == wanted;
        assert(whole[k] == wanted);
    }
}

/// Checking accepts a path exactly where nothing is wrong with any of its personas, says
/// how many are wrong otherwise, and says every fault of every one of them.
pub proof fn one_faulty_persona_refuses_the_path(
    path: &str,
    checked: &Vec<(String, Checked)>,
    said: (Vec<String>, Result<String, Error>),
    at: int,
    fault: int,
)
    requires
        call_ensures(check_personas, (path, checked), said),
    ensures
        said.1 is Ok <==> forall|i: int|
            0 <= i < checked@.len() ==> !faulty((#[trigger] checked@[i]).1),
        said.1 matches Ok(line) ==> line@ == path@ + ": OK"@,
        said.1 matches Err(error) ==> (error matches Error::InvalidConfig(why) && why@ == decimal(
            faults(checked@),
        ) + " persona(s) invalid"@),
        0 <= at < checked@.len() && (checked@[at].1 matches Checked::Parsed(errors) && 0 <= fault
            < errors@.len()) ==> texts_of(said.0@).contains(
            checked@[at].0@ + ": "@ + checked@[at].1->Parsed_0@[fault]@,
        ),
{
    failures_are_faults(checked@, checked@.len());
    assert(checked@.take(checked@.len() as int) =~= checked@);
    no_faults_is_no_faulty_one(checked@);
    if 0 <= at < checked@.len() && (checked@[at].1 matches Checked::Parsed(errors) && 0 <= fault
        < errors@.len()) {
        a_fault_is_among_the_complaints(checked@, checked@.len(), at, fault);
    }
}

} // verus!
