//! The little of JSON this library writes itself, a string the way `serde_json`
//! spells it, and the YAML a document is handed on in.

use vstd::prelude::*;
use vstd::string::StringExecFns;

use crate::text::{digit_of, join, same, separated, texts_of};

verus! {

/// One character inside a JSON string.
pub open spec fn escape(character: char) -> Seq<char> {
    let code = character as u32;
    if character == '"' {
        seq!['\\', '"']
    } else if character == '\\' {
        seq!['\\', '\\']
    } else if code == 0x08 {
        seq!['\\', 'b']
    } else if code == 0x09 {
        seq!['\\', 't']
    } else if code == 0x0a {
        seq!['\\', 'n']
    } else if code == 0x0c {
        seq!['\\', 'f']
    } else if code == 0x0d {
        seq!['\\', 'r']
    } else if code < 0x20 {
        seq!['\\', 'u', '0', '0', digit_of((code / 16) as nat), digit_of((code % 16) as nat)]
    } else {
        seq![character]
    }
}

/// The characters of a text inside a JSON string.
pub open spec fn escaped(text: Seq<char>) -> Seq<char>
    decreases text.len(),
{
    if text.len() == 0 {
        seq![]
    } else {
        escaped(text.drop_last()) + escape(text.last())
    }
}

/// A text as a JSON string, between its quotes.
pub open spec fn json_string(text: Seq<char>) -> Seq<char> {
    seq!['"'] + escaped(text) + seq!['"']
}

/// `serde_json::to_string` on a `str`: the text between double quotes, with the
/// quote, the backslash and the control characters below the space escaped and
/// every other character as it is.
#[verifier::external_body]
pub(crate) fn write_json_string(text: &str) -> (written: String)
    ensures
        written@ == json_string(text@),
{
    serde_json::to_string(text).unwrap_or_default()
}

/// One member of a JSON object: its key, and its value as JSON.
pub open spec fn json_member(key: Seq<char>, value: Seq<char>) -> Seq<char> {
    json_string(key) + ":"@ + value
}

/// A JSON object of members already written.
pub open spec fn json_object(members: Seq<Seq<char>>) -> Seq<char> {
    "{"@ + separated(members, ","@) + "}"@
}

/// A JSON list of items already written.
pub open spec fn json_list(items: Seq<Seq<char>>) -> Seq<char> {
    "["@ + separated(items, ","@) + "]"@
}

/// A list of texts as a JSON list of strings.
pub open spec fn json_strings(texts: Seq<Seq<char>>) -> Seq<char> {
    json_list(texts.map_values(|text: Seq<char>| json_string(text)))
}

/// A truth value as JSON.
pub open spec fn json_bool(value: bool) -> Seq<char> {
    if value {
        "true"@
    } else {
        "false"@
    }
}

pub(crate) fn write_member(key: &str, value: &str) -> (text: String)
    ensures
        text@ == json_member(key@, value@),
{
    let mut text = write_json_string(key);
    text.append(":");
    text.append(value);
    text
}

pub(crate) fn write_string_member(key: &str, value: &str) -> (text: String)
    ensures
        text@ == json_member(key@, json_string(value@)),
{
    write_member(key, write_json_string(value).as_str())
}

pub(crate) fn write_object(members: &Vec<String>) -> (text: String)
    ensures
        text@ == json_object(texts_of(members@)),
{
    let mut text = String::from_str("{");
    text.append(join(members, ",").as_str());
    text.append("}");
    text
}

pub(crate) fn write_list(items: &Vec<String>) -> (text: String)
    ensures
        text@ == json_list(texts_of(items@)),
{
    let mut text = String::from_str("[");
    text.append(join(items, ",").as_str());
    text.append("]");
    text
}

pub(crate) fn write_strings(texts: &Vec<String>) -> (text: String)
    ensures
        text@ == json_strings(texts_of(texts@)),
{
    let ghost wanted = texts_of(texts@).map_values(|text: Seq<char>| json_string(text));
    let mut items: Vec<String> = Vec::new();
    let mut at: usize = 0;
    assert(texts_of(items@) =~= wanted.take(0));
    while at < texts.len()
        invariant
            at <= texts@.len(),
            wanted == texts_of(texts@).map_values(|text: Seq<char>| json_string(text)),
            texts_of(items@) == wanted.take(at as int),
        decreases texts@.len() - at,
    {
        let ghost earlier = texts_of(items@);
        let item = write_json_string(texts[at].as_str());
        items.push(item);
        assert(texts_of(items@) =~= earlier.push(item@));
        assert(wanted.take(at + 1) =~= wanted.take(at as int).push(wanted[at as int]));
        at = at + 1;
    }
    assert(wanted.take(at as int) =~= wanted);
    write_list(&items)
}

pub(crate) fn write_bool(value: bool) -> (text: &'static str)
    ensures
        text@ == json_bool(value),
{
    if value {
        "true"
    } else {
        "false"
    }
}

/// The members of an object with one of them put under `key`: in place of the one
/// that was there, or after the rest.
pub open spec fn with_member(
    members: Seq<(Seq<char>, Seq<char>)>,
    key: Seq<char>,
    value: Seq<char>,
) -> Seq<(Seq<char>, Seq<char>)>
    decreases members.len(),
{
    if members.len() == 0 {
        seq![(key, value)]
    } else if members[0].0 == key {
        seq![(key, value)] + members.drop_first()
    } else {
        seq![members[0]] + with_member(members.drop_first(), key, value)
    }
}

/// Members kept as text, by key and JSON value.
pub open spec fn members_of(members: Seq<(String, String)>) -> Seq<(Seq<char>, Seq<char>)> {
    members.map_values(|member: (String, String)| (member.0@, member.1@))
}

/// An object of members kept as text.
pub open spec fn json_document(members: Seq<(Seq<char>, Seq<char>)>) -> Seq<char> {
    json_object(
        members.map_values(|member: (Seq<char>, Seq<char>)| json_member(member.0, member.1)),
    )
}

pub(crate) fn put_member(members: &mut Vec<(String, String)>, key: &str, value: String)
    ensures
        members_of(final(members)@) == with_member(members_of(old(members)@), key@, value@),
{
    let ghost list = members_of(members@);
    let ghost wanted = value@;
    let mut at: usize = 0;
    assert(list.skip(0) =~= list);
    assert(list.take(0) + with_member(list, key@, wanted) =~= with_member(list, key@, wanted));
    while at < members.len() && !same(members[at].0.as_str(), key)
        invariant
            at <= members@.len(),
            list == members_of(members@),
            with_member(list, key@, wanted) == list.take(at as int) + with_member(
                list.skip(at as int),
                key@,
                wanted,
            ),
        decreases members@.len() - at,
    {
        let ghost rest = list.skip(at as int);
        assert(rest[0] == list[at as int]);
        assert(rest.drop_first() =~= list.skip(at + 1));
        assert(list.take(at + 1) + with_member(rest.drop_first(), key@, wanted) =~= list.take(
            at as int,
        ) + with_member(rest, key@, wanted));
        at = at + 1;
    }
    let ghost rest = list.skip(at as int);
    if at < members.len() {
        assert(rest[0] == list[at as int]);
        members.set(at, (String::from_str(key), value));
        assert(members_of(members@) =~= list.take(at as int) + (seq![(key@, wanted)]
            + rest.drop_first()));
    } else {
        assert(rest =~= seq![]);
        members.push((String::from_str(key), value));
        assert(members_of(members@) =~= list.take(at as int) + seq![(key@, wanted)]);
    }
}

pub(crate) fn write_document(members: &Vec<(String, String)>) -> (text: String)
    ensures
        text@ == json_document(members_of(members@)),
{
    let ghost wanted = members_of(members@).map_values(
        |member: (Seq<char>, Seq<char>)| json_member(member.0, member.1),
    );
    let mut written: Vec<String> = Vec::new();
    let mut at: usize = 0;
    assert(texts_of(written@) =~= wanted.take(0));
    while at < members.len()
        invariant
            at <= members@.len(),
            wanted == members_of(members@).map_values(
                |member: (Seq<char>, Seq<char>)| json_member(member.0, member.1),
            ),
            texts_of(written@) == wanted.take(at as int),
        decreases members@.len() - at,
    {
        let ghost earlier = texts_of(written@);
        let member = write_member(members[at].0.as_str(), members[at].1.as_str());
        written.push(member);
        assert(texts_of(written@) =~= earlier.push(member@));
        assert(wanted.take(at + 1) =~= wanted.take(at as int).push(wanted[at as int]));
        at = at + 1;
    }
    assert(wanted.take(at as int) =~= wanted);
    write_object(&written)
}

/// What a JSON document reads as in YAML, or why it cannot be written.
pub uninterp spec fn yaml_of(document: Seq<char>) -> Result<Seq<char>, Seq<char>>;

/// `serde_norway::to_string` on the value a JSON text stands for, which
/// `serde_json::from_str` reads: the document as YAML, or the reason either of
/// them gives.
#[verifier::external_body]
pub(crate) fn write_yaml(document: &str) -> (written: Result<String, String>)
    ensures
        match yaml_of(document@) {
            Ok(text) => written matches Ok(found) && found@ == text,
            Err(why) => written matches Err(found) && found@ == why,
        },
{
    let value: serde_json::Value = serde_json::from_str(document).map_err(|e| e.to_string())?;
    serde_norway::to_string(&value).map_err(|e| e.to_string())
}

} // verus!
