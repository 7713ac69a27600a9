//! Which document a member's `persona:` names, and what the member is then called.
//!
//! A ref that is a persona *name* is a catalog lookup; anything else is the path or
//! URL it has always been. A name in the graph's catalog and in the shipped set is
//! refused rather than resolved: either answer would be silent.

use vstd::prelude::*;
use vstd::string::StringExecFns;

use crate::anchor::{
    anchored_path, anchored_path_of, components, join_path, seen, take_components, under,
};
use crate::error::Error;
use crate::text::{characters, join, quote, quoted, same, separated, spelled, text_of, texts_of};

verus! {

/// Where the catalog a graph named is, resolved against the graph document the way
/// every other relative ref in it is, when it named one.
pub open spec fn catalog_of(
    here: Seq<char>,
    graph_dir: Option<Seq<char>>,
    personas: Option<Seq<char>>,
) -> Option<Seq<char>> {
    match personas {
        Some(root) => Some(anchored_path_of(here, graph_dir, root)),
        None => None,
    }
}

/// Where this graph's persona catalog is, when it named one.
pub fn catalog_path(here: &str, graph_dir: Option<&str>, personas: Option<&str>) -> (root: Option<
    String,
>)
    ensures
        text_of(root) == catalog_of(here@, seen(graph_dir), seen(personas)),
{
    match personas {
        Some(root) => Some(anchored_path(here, graph_dir, root)),
        None => None,
    }
}

/// A catalog that could not be read.
pub open spec fn unreadable_catalog(root: Seq<char>, why: Seq<char>) -> Seq<char> {
    "this graph's persona catalog ("@ + root + ") is not a directory this run can read ("@ + why
        + "), so every name a member gives would resolve to a shipped persona or to nothing"@
}

/// This graph's persona catalog, given what opening it came to.
///
/// One that cannot be read is refused rather than treated as empty: an empty one
/// is indistinguishable from a lookup that missed.
pub fn catalog_root(root: Option<String>, opened: Result<(), String>) -> (catalog: Result<
    Option<String>,
    Error,
>)
    ensures
        match (root, opened) {
            (Some(root), Err(why)) => catalog matches Err(Error::InvalidConfig(text)) && text@
                == unreadable_catalog(root@, why@),
            _ => catalog == Ok::<Option<String>, Error>(root),
        },
{
    match root {
        None => Ok(None),
        Some(root) => match opened {
            Ok(()) => Ok(Some(root)),
            Err(why) => {
                let mut text = String::from_str("this graph's persona catalog (");
                text.append(root.as_str());
                text.append(") is not a directory this run can read (");
                text.append(why.as_str());
                text.append(
                    "), so every name a member gives would resolve to a shipped persona or to nothing",
                );
                Err(Error::InvalidConfig(text))
            },
        },
    }
}

/// The file a name points at in a catalog.
pub open spec fn entry_of(root: Seq<char>, name: Seq<char>) -> Seq<char> {
    under(root, name + ".yaml"@)
}

/// The file a name points at in a catalog.
pub fn catalog_entry(root: &str, name: &str) -> (file: String)
    ensures
        file@ == entry_of(root@, name@),
{
    let mut entry = String::from_str(name);
    entry.append(".yaml");
    join_path(root, entry.as_str())
}

/// What asking the filesystem about a catalog entry came to.
#[derive(Debug, PartialEq, Eq)]
pub enum Stat {
    /// A file.
    File,
    /// Something that is not a file.
    NotFile,
    /// Nothing by that name.
    Missing,
    /// The filesystem refused to say, and why.
    Refused(String),
}

/// An entry the filesystem refused to describe.
pub open spec fn unreadable_entry(name: Seq<char>, file: Seq<char>, why: Seq<char>) -> Seq<char> {
    "persona "@ + quoted(name) + ": cannot read "@ + file + " from this graph's catalog: "@ + why
}

/// The catalog file a persona name points at, when it is there.
///
/// Only absence is a miss: an entry this process may not stat is a persona that
/// may well be there, and a directory by that name is not a persona.
pub fn catalog_file(name: &str, file: String, stat: Stat) -> (found: Result<Option<String>, Error>)
    ensures
        match stat {
            Stat::File => found == Ok::<Option<String>, Error>(Some(file)),
            Stat::NotFile | Stat::Missing => found == Ok::<Option<String>, Error>(None),
            Stat::Refused(why) => found matches Err(Error::InvalidConfig(text)) && text@
                == unreadable_entry(name@, file@, why@),
        },
{
    match stat {
        Stat::File => Ok(Some(file)),
        Stat::NotFile => Ok(None),
        Stat::Missing => Ok(None),
        Stat::Refused(why) => {
            let mut text = String::from_str("persona ");
            text.append(quote(name).as_str());
            text.append(": cannot read ");
            text.append(file.as_str());
            text.append(" from this graph's catalog: ");
            text.append(why.as_str());
            Err(Error::InvalidConfig(text))
        },
    }
}

/// Where a member's persona document is.
#[derive(Debug, PartialEq, Eq)]
pub enum PersonaSource {
    /// This file of the graph's own catalog.
    Catalog(String),
    /// This document, which ships with the library.
    Shipped(String),
    /// Wherever the ref itself says: a path or a URL.
    Reference,
}

/// A name that both catalogs hold.
pub open spec fn ambiguous(name: Seq<char>, path: Seq<char>) -> Seq<char> {
    "persona "@ + quoted(name) + " names both "@ + path
        + " in this graph's catalog and one this crate ships, and which of them a member runs under must not be this build's to decide: rename yours, or name it by path (`persona: "@
        + path + "`)"@
}

/// A name that neither catalog holds.
pub open spec fn unheld(name: Seq<char>, root: Seq<char>, shipped: Seq<Seq<char>>) -> Seq<char> {
    "persona "@ + quoted(name) + ": this graph's catalog ("@ + root + ") holds no "@ + name
        + ".yaml, and it is not one this crate ships ("@ + separated(shipped, ", "@)
        + "). Name a file by path to use one from anywhere else."@
}

/// The document one `persona:` ref names.
///
/// `named` is whether the ref is a persona name at all. A graph that named a
/// catalog meant a name to be looked up in it, so a miss in both is refused with
/// both named; without a catalog it is read as the ref it is.
pub fn persona_document(
    name: &str,
    named: bool,
    held: Option<String>,
    shipped: Option<String>,
    root: &Option<String>,
    shipped_names: &Vec<String>,
) -> (source: Result<PersonaSource, Error>)
    ensures
        if !named {
            source == Ok::<PersonaSource, Error>(PersonaSource::Reference)
        } else {
            match (held, shipped) {
                (Some(path), Some(_)) => source matches Err(Error::InvalidConfig(text)) && text@
                    == ambiguous(name@, path@),
                (Some(path), None) => source == Ok::<PersonaSource, Error>(
                    PersonaSource::Catalog(path),
                ),
                (None, Some(document)) => source == Ok::<PersonaSource, Error>(
                    PersonaSource::Shipped(document),
                ),
                (None, None) => match *root {
                    Some(root) => source matches Err(Error::InvalidConfig(text)) && text@ == unheld(
                        name@,
                        root@,
                        texts_of(shipped_names@),
                    ),
                    None => source == Ok::<PersonaSource, Error>(PersonaSource::Reference),
                },
            }
        },
{
    if !named {
        return Ok(PersonaSource::Reference);
    }
    match (held, shipped) {
        (Some(path), Some(_)) => {
            let mut text = String::from_str("persona ");
            text.append(quote(name).as_str());
            text.append(" names both ");
            text.append(path.as_str());
            text.append(
                " in this graph's catalog and one this crate ships, and which of them a member runs under must not be this build's to decide: rename yours, or name it by path (`persona: ",
            );
            text.append(path.as_str());
            text.append("`)");
            Err(Error::InvalidConfig(text))
        },
        (Some(path), None) => Ok(PersonaSource::Catalog(path)),
        (None, Some(document)) => Ok(PersonaSource::Shipped(document)),
        (None, None) => match root {
            Some(root) => {
                let mut text = String::from_str("persona ");
                text.append(quote(name).as_str());
                text.append(": this graph's catalog (");
                text.append(root.as_str());
                text.append(") holds no ");
                text.append(name);
                text.append(".yaml, and it is not one this crate ships (");
                text.append(join(shipped_names, ", ").as_str());
                text.append("). Name a file by path to use one from anywhere else.");
                Err(Error::InvalidConfig(text))
            },
            None => Ok(PersonaSource::Reference),
        },
    }
}

/// Where the last dot of a name stands, or -1 when it holds none.
pub open spec fn last_dot(name: Seq<char>) -> int
    decreases name.len(),
{
    if name.len() == 0 {
        -1
    } else if name.last() == '.' {
        name.len() - 1
    } else {
        last_dot(name.drop_last())
    }
}

/// The name of the file a path ends in, without its extension.
pub open spec fn stem_of(path: Seq<char>) -> Option<Seq<char>> {
    let parts = components(path);
    if parts.len() == 0 || parts.last() == ".."@ {
        None
    } else {
        let name = parts.last();
        let dot = last_dot(name);
        Some(
            if dot <= 0 {
                name
            } else {
                name.take(dot)
            },
        )
    }
}

/// The name of the file a path ends in, without its extension.
pub fn file_stem(path: &str) -> (stem: Option<String>)
    ensures
        text_of(stem) == stem_of(path@),
{
    let parts = take_components(path);
    let ghost all = texts_of(parts@);
    if parts.len() == 0 {
        return None;
    }
    let name = parts[parts.len() - 1].as_str();
    assert(all.last() == name@);
    if same(name, "..") {
        return None;
    }
    let characters = characters(name);
    let mut end: usize = characters.len();
    assert(characters@.take(end as int) =~= characters@);
    while end > 0 && characters[end - 1] != '.'
        invariant
            end <= characters@.len(),
            last_dot(characters@) == last_dot(characters@.take(end as int)),
        decreases end,
    {
        assert(characters@.take(end as int).drop_last() =~= characters@.take(end - 1));
        end = end - 1;
    }
    if end <= 1 {
        Some(String::from_str(name))
    } else {
        let stem = spelled(&characters, 0, end - 1);
        assert(stem@ =~= name@.take(end - 1));
        Some(stem)
    }
}

/// A persona document, as far as a member's launch reads it.
#[derive(Debug)]
pub struct Persona {
    /// What the document calls itself.
    pub label: Option<String>,
    /// What is wrong with it, when anything is.
    pub errors: Vec<String>,
}

/// A member's persona, from what reading its document came to: refused with
/// everything that is wrong with it, and otherwise known by the label it gives
/// itself or by its file's name.
pub fn load_persona(reference: &str, origin: &str, persona: Persona) -> (label: Result<
    Option<String>,
    Error,
>)
    ensures
        if persona.errors@.len() > 0 {
            label matches Err(Error::InvalidConfig(text)) && text@ == origin@ + ": "@ + separated(
                texts_of(persona.errors@),
                "; "@,
            )
        } else {
            label matches Ok(found) && text_of(found) == match persona.label {
                Some(own) => Some(own@),
                None => stem_of(reference@),
            }
        },
{
    if persona.errors.len() > 0 {
        let mut text = String::from_str(origin);
        text.append(": ");
        text.append(join(&persona.errors, "; ").as_str());
        return Err(Error::InvalidConfig(text));
    }
    match persona.label {
        Some(label) => Ok(Some(label)),
        None => Ok(file_stem(reference)),
    }
}

} // verus!
