//! Reading a JSON document, one place of it at a time.

use vstd::prelude::*;

use crate::json::{json_member, json_object, json_string};
use crate::text::{decimal, plain_name, texts_of};

verus! {

/// What stands at one place of a document.
#[derive(Debug, PartialEq, Eq)]
pub enum Node {
    /// Nothing.
    Missing,
    /// A null.
    Null,
    /// A text.
    Text(String),
    /// A whole number from zero on.
    Count(u64),
    /// An object with these keys, in order.
    Object(Vec<String>),
    /// A list of this length.
    List(usize),
    /// Anything else.
    Other,
}

/// What stands at one place of a document, as the contracts speak of it.
pub enum NodeText {
    /// Nothing.
    Missing,
    /// A null.
    Null,
    /// A text.
    Text(Seq<char>),
    /// A whole number from zero on.
    Count(u64),
    /// An object with these keys, in order.
    Object(Seq<Seq<char>>),
    /// A list of this length.
    List(nat),
    /// Anything else.
    Other,
}

impl View for Node {
    type V = NodeText;

    open spec fn view(&self) -> NodeText {
        match self {
            Node::Missing => NodeText::Missing,
            Node::Null => NodeText::Null,
            Node::Text(text) => NodeText::Text(text@),
            Node::Count(count) => NodeText::Count(*count),
            Node::Object(keys) => NodeText::Object(texts_of(keys@)),
            Node::List(length) => NodeText::List(*length as nat),
            Node::Other => NodeText::Other,
        }
    }
}

/// A document made of texts, counts and objects of them.
pub enum Tree {
    /// A text.
    Text(Seq<char>),
    /// A count.
    Count(u64),
    /// Members, by key and in order.
    Object(Seq<(Seq<char>, Tree)>),
}

/// A document, written.
pub open spec fn tree_text(tree: Tree) -> Seq<char>
    decreases tree, 0nat,
{
    match tree {
        Tree::Text(text) => json_string(text),
        Tree::Count(count) => decimal(count as nat),
        Tree::Object(members) => json_object(members_text(members, members.len())),
    }
}

/// The first `count` members of an object, each of them written.
pub open spec fn members_text(members: Seq<(Seq<char>, Tree)>, count: nat) -> Seq<Seq<char>>
    decreases members, count,
{
    if count == 0 || count > members.len() {
        seq![]
    } else {
        members_text(members, (count - 1) as nat).push(
            json_member(members[count - 1].0, tree_text(members[count - 1].1)),
        )
    }
}

/// Whether a document nests no deeper than `depth`, names the members of its objects
/// plainly, and none of one object twice.
pub open spec fn fits(tree: Tree, depth: nat) -> bool
    decreases depth,
{
    match tree {
        Tree::Object(members) => {
            &&& depth > 0
            &&& forall|i: int, j: int|
                0 <= i < j < members.len() ==> (#[trigger] members[i]).0 != (
                #[trigger] members[j]).0
            &&& forall|i: int|
                0 <= i < members.len() ==> plain_name((#[trigger] members[i]).0) && fits(
                    members[i].1,
                    (depth - 1) as nat,
                )
        },
        _ => true,
    }
}

/// The member of an object under a key.
pub open spec fn member_at(members: Seq<(Seq<char>, Tree)>, key: Seq<char>) -> Option<Tree>
    decreases members.len(),
{
    if members.len() == 0 {
        None
    } else if members[0].0 == key {
        Some(members[0].1)
    } else {
        member_at(members.drop_first(), key)
    }
}

/// What stands in a document at the end of a path of keys.
pub open spec fn look(tree: Tree, path: Seq<Seq<char>>) -> NodeText
    decreases path.len(),
{
    if path.len() == 0 {
        match tree {
            Tree::Text(text) => NodeText::Text(text),
            Tree::Count(count) => NodeText::Count(count),
            Tree::Object(members) => NodeText::Object(
                members.map_values(|member: (Seq<char>, Tree)| member.0),
            ),
        }
    } else {
        match tree {
            Tree::Object(members) => match member_at(members, path[0]) {
                Some(member) => look(member, path.drop_first()),
                None => NodeText::Missing,
            },
            _ => NodeText::Missing,
        }
    }
}

/// A path of keys as a pointer: each key after a slash.
pub open spec fn pointer_of(path: Seq<Seq<char>>) -> Seq<char>
    decreases path.len(),
{
    if path.len() == 0 {
        seq![]
    } else {
        pointer_of(path.drop_last()) + "/"@ + path.last()
    }
}

/// How deep a document is relied on to be read.
pub const READ_DEPTH: usize = 100;

/// Why a text is no JSON, where it is none.
pub uninterp spec fn json_fault(raw: Seq<char>) -> Option<Seq<char>>;

/// What stands at a pointer of a JSON text.
pub uninterp spec fn json_node(raw: Seq<char>, pointer: Seq<char>) -> NodeText;

/// Whether `node` is what was written at a pointer, for every document that `raw`
/// is the text of.
pub open spec fn reads_back(
    raw: Seq<char>,
    pointer: Seq<char>,
    node: Result<Node, String>,
) -> bool {
    forall|tree: Tree, path: Seq<Seq<char>>|
        raw == #[trigger] tree_text(tree) && fits(tree, READ_DEPTH as nat) && pointer
            == #[trigger] pointer_of(path) && (forall|i: int|
            0 <= i < path.len() ==> plain_name(#[trigger] path[i])) ==> (node matches Ok(found)
            && found@ == look(tree, path))
}

/// `serde_json::from_str` into a `Value`, and what `Value::pointer` finds in it,
/// one node for each kind of value: a number is a count where `Number::as_u64` says
/// it is one. A text that is no JSON is answered with the parser's own message. A
/// document of texts, counts and objects is read back as it was written: each
/// escape as its character, each number as its count, and the members of an object
/// under their own keys, in order.
#[verifier::external_body]
fn find_node(raw: &str, pointer: &str) -> (node: Result<Node, String>)
    ensures
        match json_fault(raw@) {
            Some(wanted) => node matches Err(why) && why@ == wanted,
            None => node matches Ok(found) && found@ == json_node(raw@, pointer@),
        },
        reads_back(raw@, pointer@, node),
{
    let value: serde_json::Value = match serde_json::from_str(raw) {
        Ok(value) => value,
        Err(err) => return Err(serde_json::Error::to_string(&err)),
    };
    Ok(match value.pointer(pointer) {
        None => Node::Missing,
        Some(serde_json::Value::Null) => Node::Null,
        Some(serde_json::Value::String(text)) => Node::Text(text.clone()),
        Some(serde_json::Value::Number(number)) => number.as_u64().map_or(Node::Other, Node::Count),
        Some(serde_json::Value::Object(map)) => Node::Object(map.keys().cloned().collect()),
        Some(serde_json::Value::Array(list)) => Node::List(list.len()),
        Some(serde_json::Value::Bool(_)) => Node::Other,
    })
}

/// Whether a place of a document is what was written there, for every document
/// that `raw` is the text of.
pub open spec fn faithful(raw: Seq<char>, pointer: Seq<char>) -> bool {
    forall|tree: Tree, path: Seq<Seq<char>>|
        raw == #[trigger] tree_text(tree) && fits(tree, READ_DEPTH as nat) && pointer
            == #[trigger] pointer_of(path) && (forall|i: int|
            0 <= i < path.len() ==> plain_name(#[trigger] path[i])) ==> json_fault(raw) is None
            && json_node(raw, pointer) == look(tree, path)
}

/// What stands at a pointer of a JSON text, or why the text is no JSON.
pub fn node_at(raw: &str, pointer: &str) -> (node: Result<Node, String>)
    ensures
        match json_fault(raw@) {
            Some(wanted) => node matches Err(why) && why@ == wanted,
            None => node matches Ok(found) && found@ == json_node(raw@, pointer@),
        },
        faithful(raw@, pointer@),
{
    find_node(raw, pointer)
}

} // verus!
