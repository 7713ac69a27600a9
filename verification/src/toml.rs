//! Reading and editing a TOML document through `toml_edit`, text in and text out.
//!
//! What the editor leaves as it was — comments, order, spacing — is its own
//! business and is not spelled out: each result is named, and a name stands for
//! the text (or the refusal) the editor answers with.

use vstd::prelude::*;

verus! {

/// What came of one edit.
#[derive(Debug, PartialEq, Eq)]
pub enum Edited {
    /// The document with the edit made.
    Done(String),
    /// The text is not TOML, and why.
    NotToml(String),
    /// What stands where a table has to be is not one.
    TableBlocked,
    /// What stands in that table where a section has to be is not a table.
    SectionBlocked,
}

/// What came of one edit, as the contracts speak of it.
pub enum EditedText {
    /// The document with the edit made.
    Done(Seq<char>),
    /// The text is not TOML, and why.
    NotToml(Seq<char>),
    /// What stands where a table has to be is not one.
    TableBlocked,
    /// What stands in that table where a section has to be is not a table.
    SectionBlocked,
}

impl View for Edited {
    type V = EditedText;

    open spec fn view(&self) -> EditedText {
        match self {
            Edited::Done(text) => EditedText::Done(text@),
            Edited::NotToml(why) => EditedText::NotToml(why@),
            Edited::TableBlocked => EditedText::TableBlocked,
            Edited::SectionBlocked => EditedText::SectionBlocked,
        }
    }
}

/// The entries of an array, each by its text when it is a string.
pub open spec fn entries_of(entries: Seq<Option<String>>) -> Seq<Option<Seq<char>>> {
    entries.map_values(
        |entry: Option<String>| crate::text::text_of(entry),
    )
}

/// What reading an array gave: the reason the text is not TOML, or the array's
/// entries when the key holds one.
pub open spec fn array_of(found: Result<Option<Vec<Option<String>>>, String>) -> Result<
    Option<Seq<Option<Seq<char>>>>,
    Seq<char>,
> {
    match found {
        Ok(Some(entries)) => Ok(Some(entries_of(entries@))),
        Ok(None) => Ok(None),
        Err(why) => Err(why@),
    }
}

/// The entries of the array under a top-level key of a TOML document.
pub uninterp spec fn toml_array(config: Seq<char>, key: Seq<char>) -> Result<
    Option<Seq<Option<Seq<char>>>>,
    Seq<char>,
>;

/// `DocumentMut::from_str`, then the array under `key` as `Item::as_array` answers
/// it: `None` where the key is absent or holds anything else, and each entry as
/// `Value::as_str` answers it. A text that is not TOML is answered with the
/// parser's own message.
#[verifier::external_body]
pub(crate) fn read_array(config: &str, key: &str) -> (found: Result<
    Option<Vec<Option<String>>>,
    String,
>)
    ensures
        array_of(found) == toml_array(config@, key@),
{
    let document: toml_edit::DocumentMut = match config.parse() {
        Ok(document) => document,
        Err(err) => return Err(toml_edit::TomlError::to_string(&err)),
    };
    let array = document.get(key).and_then(toml_edit::Item::as_array);
    Ok(array.map(|entries| entries.iter().map(|e| e.as_str().map(str::to_string)).collect()))
}

/// A TOML document with a string put under a top-level key.
pub uninterp spec fn toml_set(config: Seq<char>, key: Seq<char>, value: Seq<char>) -> EditedText;

/// `DocumentMut`'s index assignment: the string under `key`, in place of whatever
/// was there. Every other top-level key holds what it held.
#[verifier::external_body]
pub(crate) fn set_key(config: &str, key: &str, value: &str) -> (edited: Edited)
    ensures
        edited@ == toml_set(config@, key@, value@),
        edited is Done || edited is NotToml,
        edited matches Edited::Done(text) ==> forall|other: Seq<char>|
            other != key@ ==> #[trigger] toml_array(text@, other) == toml_array(config@, other),
{
    let mut document: toml_edit::DocumentMut = match config.parse() {
        Ok(document) => document,
        Err(err) => return Edited::NotToml(toml_edit::TomlError::to_string(&err)),
    };
    document[key] = toml_edit::value(value);
    Edited::Done(document.to_string())
}

/// A TOML document with a string put under a key of a top-level table.
pub uninterp spec fn toml_set_in(
    config: Seq<char>,
    table: Seq<char>,
    key: Seq<char>,
    value: Seq<char>,
) -> EditedText;

/// `Table::entry(..).or_insert` and the table's index assignment: the string under
/// `key` of `table`, which is made where it is absent. `TableBlocked` when
/// `Item::as_table_mut` finds something other than a table there. No array under a
/// top-level key is touched: what is edited is a table.
#[verifier::external_body]
pub(crate) fn set_in(config: &str, table: &str, key: &str, value: &str) -> (edited: Edited)
    ensures
        edited@ == toml_set_in(config@, table@, key@, value@),
        !(edited is SectionBlocked),
        edited matches Edited::Done(text) ==> forall|other: Seq<char>| #[trigger]
            toml_array(text@, other) == toml_array(config@, other),
{
    let mut document: toml_edit::DocumentMut = match config.parse() {
        Ok(document) => document,
        Err(err) => return Edited::NotToml(toml_edit::TomlError::to_string(&err)),
    };
    match document.entry(table).or_insert(toml_edit::table()).as_table_mut() {
        Some(held) => held[key] = toml_edit::value(value),
        None => return Edited::TableBlocked,
    }
    Edited::Done(document.to_string())
}

/// A TOML document with a string put under a key of a section of a top-level
/// table.
pub uninterp spec fn toml_set_under(
    config: Seq<char>,
    table: Seq<char>,
    section: Seq<char>,
    key: Seq<char>,
    value: Seq<char>,
) -> EditedText;

/// The same through one more table, the outer one marked implicit by
/// `Table::set_implicit`: the string under `key` of `section` of `table`.
/// `TableBlocked` and `SectionBlocked` say which of the two is something other
/// than a table. No array under a top-level key is touched.
#[verifier::external_body]
pub(crate) fn set_under(config: &str, table: &str, section: &str, key: &str, value: &str) -> (edited:
    Edited)
    ensures
        edited@ == toml_set_under(config@, table@, section@, key@, value@),
        edited matches Edited::Done(text) ==> forall|other: Seq<char>| #[trigger]
            toml_array(text@, other) == toml_array(config@, other),
{
    let mut document: toml_edit::DocumentMut = match config.parse() {
        Ok(document) => document,
        Err(err) => return Edited::NotToml(toml_edit::TomlError::to_string(&err)),
    };
    let outer = match document.entry(table).or_insert(toml_edit::table()).as_table_mut() {
        Some(outer) => outer,
        None => return Edited::TableBlocked,
    };
    outer.set_implicit(true);
    match outer.entry(section).or_insert(toml_edit::table()).as_table_mut() {
        Some(held) => held[key] = toml_edit::value(value),
        None => return Edited::SectionBlocked,
    }
    Edited::Done(document.to_string())
}

} // verus!
