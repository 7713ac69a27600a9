//! The two spellings of a member's judge list, read into one list and written back
//! as the shorter one.
//!
//! A judge is told apart by the one field each shape requires —
//! `oneharness_config`, `kind: llmlint`, `command` — so a mapping that is none of
//! the three is refused naming what it carried. Reading the fields of a side,
//! once its shape is known, is the document format's: what came of it is handed
//! in.

use vstd::prelude::*;
use vstd::string::StringExecFns;

use crate::config::JudgeSide;
use crate::event::LabelValue;
use crate::text::{
    contains_text, decimal, holds_text, join, same, separated, text_of, texts_of, write_decimal,
};

verus! {

/// One entry of a judge list, as far as its shape goes.
#[derive(Debug, PartialEq, Eq)]
pub enum Entry {
    /// A mapping: its keys in the order they were written, and what it says under
    /// `kind`.
    Mapping {
        /// The keys, in order.
        keys: Vec<String>,
        /// The value under `kind`.
        kind: Option<LabelValue>,
    },
    /// Anything else, by its JSON text.
    Other(String),
}

/// The three shapes a judge is written in.
#[derive(Debug, Clone, Copy, PartialEq, Eq, Structural)]
pub enum Shape {
    /// Names an `oneharness_config`.
    Harness,
    /// Says `kind: llmlint`.
    Llmlint,
    /// Names a `command`.
    Command,
}

impl Shape {
    /// What a shape is called.
    pub open spec fn called(self) -> Seq<char> {
        match self {
            Shape::Harness => "a harness side"@,
            Shape::Llmlint => "an llmlint side"@,
            Shape::Command => "a command side"@,
        }
    }

    /// What this shape is called.
    pub fn name(self) -> (name: &'static str)
        ensures
            name@ == self.called(),
    {
        match self {
            Shape::Harness => "a harness side",
            Shape::Llmlint => "an llmlint side",
            Shape::Command => "a command side",
        }
    }
}

/// A value as a refusal names it: a string by its own text, anything else by its
/// JSON.
pub open spec fn shown(value: LabelValue) -> Seq<char> {
    match value {
        LabelValue::Text(text) => text@,
        LabelValue::Other(text) => text@,
    }
}

/// The shape an entry is written in, or why it is none of the three.
pub open spec fn shape_of(entry: Entry) -> Result<Shape, Seq<char>> {
    match entry {
        Entry::Other(text) => Err(text@ + " is not a mapping"@),
        Entry::Mapping { keys, kind } => if holds_text(keys@, "oneharness_config"@) {
            Ok(Shape::Harness)
        } else if let Some(kind) = kind {
            if kind.string() == Some("llmlint"@) {
                Ok(Shape::Llmlint)
            } else {
                Err(
                    "`kind: "@ + shown(kind)
                        + "` names no judge shape: the graph spells a harness side by its `oneharness_config` and a command side by its `command`, and `kind:` only ever says `llmlint`"@,
                )
            }
        } else if holds_text(keys@, "command"@) {
            Ok(Shape::Command)
        } else {
            Err(
                "{"@ + separated(texts_of(keys@), ", "@)
                    + "} is none of the three judge shapes: a harness side names an `oneharness_config`, an llmlint side says `kind: llmlint`, and a command side names a `command`"@,
            )
        },
    }
}

/// The shape a side is of.
pub open spec fn shape_of_side(side: JudgeSide) -> Shape {
    match side {
        JudgeSide::Harness(_) => Shape::Harness,
        JudgeSide::Llmlint(_) => Shape::Llmlint,
        JudgeSide::Command(_) => Shape::Command,
    }
}

/// The shape a side is of.
fn side_shape(side: &JudgeSide) -> (shape: Shape)
    ensures
        shape == shape_of_side(*side),
{
    match side {
        JudgeSide::Harness(_) => Shape::Harness,
        JudgeSide::Llmlint(_) => Shape::Llmlint,
        JudgeSide::Command(_) => Shape::Command,
    }
}

impl Shape {
    /// Whether a shape has a field of this name.
    pub open spec fn declares(self, key: Seq<char>) -> bool {
        match self {
            Shape::Harness => key == "oneharness_config"@ || key == "model"@ || key == "label"@,
            Shape::Llmlint => key == "kind"@ || key == "config"@ || key == "bin"@ || key
                == "diff_base"@ || key == "args"@ || key == "label"@,
            Shape::Command => key == "command"@ || key == "label"@,
        }
    }

    /// Whether this shape has a field of this name.
    pub fn has_field(self, key: &str) -> (answer: bool)
        ensures
            answer == self.declares(key@),
    {
        match self {
            Shape::Harness => same(key, "oneharness_config") || same(key, "model") || same(
                key,
                "label",
            ),
            Shape::Llmlint => same(key, "kind") || same(key, "config") || same(key, "bin") || same(
                key,
                "diff_base",
            ) || same(key, "args") || same(key, "label"),
            Shape::Command => same(key, "command") || same(key, "label"),
        }
    }
}

/// The first key that is no field of a shape.
pub open spec fn undeclared(keys: Seq<String>, shape: Shape) -> Option<Seq<char>>
    decreases keys.len(),
{
    if keys.len() == 0 {
        None
    } else if !shape.declares(keys[0]@) {
        Some(keys[0]@)
    } else {
        undeclared(keys.drop_first(), shape)
    }
}

proof fn every_key_is_looked_at(keys: Seq<String>, shape: Shape)
    ensures
        undeclared(keys, shape) is None <==> forall|i: int|
            0 <= i < keys.len() ==> shape.declares((#[trigger] keys[i])@),
    decreases keys.len(),
{
    if keys.len() > 0 {
        let rest = keys.drop_first();
        every_key_is_looked_at(rest, shape);
        if undeclared(keys, shape) is None {
            assert forall|i: int| 0 <= i < keys.len() implies shape.declares(
                (#[trigger] keys[i])@,
            ) by {
                if i > 0 {
                    assert(shape.declares(rest[i - 1]@));
                }
            }
        } else if shape.declares(keys[0]@) {
            let i = choose|i: int| 0 <= i < rest.len() && !shape.declares((#[trigger] rest[i])@);
            assert(!shape.declares(keys[i + 1]@));
        }
    }
}

fn find_undeclared(keys: &Vec<String>, shape: Shape) -> (found: Option<String>)
    ensures
        text_of(found) == undeclared(keys@, shape),
{
    let mut at: usize = 0;
    assert(keys@.skip(0) =~= keys@);
    while at < keys.len()
        invariant
            at <= keys@.len(),
            undeclared(keys@, shape) == undeclared(keys@.skip(at as int), shape),
        decreases keys@.len() - at,
    {
        assert(keys@.skip(at as int)[0] == keys@[at as int]);
        if !shape.has_field(keys[at].as_str()) {
            return Some(keys[at].clone());
        }
        assert(keys@.skip(at as int).drop_first() =~= keys@.skip(at + 1));
        at = at + 1;
    }
    None
}

/// The keys of an entry.
pub open spec fn keys_of(entry: Entry) -> Seq<String> {
    match entry {
        Entry::Mapping { keys, .. } => keys@,
        Entry::Other(_) => seq![],
    }
}

/// One entry and what reading its fields as its shape gave: a side of that shape,
/// whose every key is a field of it, or why there is none.
pub open spec fn side_of(entry: Entry, read: Result<JudgeSide, String>) -> Result<
    JudgeSide,
    Seq<char>,
> {
    match shape_of(entry) {
        Err(why) => Err(why),
        Ok(shape) => match read {
            Err(why) => Err(shape.called() + ": "@ + why@),
            Ok(side) => if shape_of_side(side) != shape {
                Err(shape.called() + ": its fields were read as "@ + shape_of_side(side).called())
            } else {
                match undeclared(keys_of(entry), shape) {
                    Some(key) => Err(shape.called() + ": unknown field `"@ + key + "`"@),
                    None => Ok(side),
                }
            },
        },
    }
}

/// An entry that is read is a side of the shape its keys say, and carries no key
/// that shape does not have.
pub proof fn a_side_is_of_the_shape_its_keys_say(
    entry: Entry,
    read: Result<JudgeSide, String>,
    side: JudgeSide,
)
    requires
        side_of(entry, read) == Ok::<JudgeSide, Seq<char>>(side),
    ensures
        read == Ok::<JudgeSide, String>(side),
        shape_of(entry) == Ok::<Shape, Seq<char>>(shape_of_side(side)),
        entry is Mapping,
        forall|i: int|
            0 <= i < keys_of(entry).len() ==> shape_of_side(side).declares(
                (#[trigger] keys_of(entry)[i])@,
            ),
        side is Harness <==> holds_text(keys_of(entry), "oneharness_config"@),
        side is Llmlint ==> !holds_text(keys_of(entry), "oneharness_config"@) && entry->kind
            is Some && entry->kind->0.string() == Some("llmlint"@),
        side is Command ==> holds_text(keys_of(entry), "command"@) && !holds_text(
            keys_of(entry),
            "oneharness_config"@,
        ) && entry->kind is None,
{
    every_key_is_looked_at(keys_of(entry), shape_of_side(side));
}

/// Whether an outcome is the one named.
pub open spec fn agrees<T>(outcome: Result<T, String>, wanted: Result<T, Seq<char>>) -> bool {
    match wanted {
        Ok(value) => outcome == Ok::<T, String>(value),
        Err(why) => outcome matches Err(text) && text@ == why,
    }
}

impl Entry {
    /// The shape this entry is written in, or why it is none of the three.
    pub fn shape(&self) -> (shape: Result<Shape, String>)
        ensures
            agrees(shape, shape_of(*self)),
    {
        match self {
            Entry::Other(text) => {
                let mut why = text.clone();
                why.append(" is not a mapping");
                Err(why)
            },
            Entry::Mapping { keys, kind } => {
                if contains_text(keys, "oneharness_config") {
                    return Ok(Shape::Harness);
                }
                if let Some(kind) = kind {
                    let said = match kind {
                        LabelValue::Text(text) => {
                            if same(text.as_str(), "llmlint") {
                                return Ok(Shape::Llmlint);
                            }
                            text
                        },
                        LabelValue::Other(text) => text,
                    };
                    let mut why = String::from_str("`kind: ");
                    why.append(said.as_str());
                    why.append(
                        "` names no judge shape: the graph spells a harness side by its `oneharness_config` and a command side by its `command`, and `kind:` only ever says `llmlint`",
                    );
                    return Err(why);
                }
                if contains_text(keys, "command") {
                    return Ok(Shape::Command);
                }
                let mut why = String::from_str("{");
                why.append(join(keys, ", ").as_str());
                why.append(
                    "} is none of the three judge shapes: a harness side names an `oneharness_config`, an llmlint side says `kind: llmlint`, and a command side names a `command`",
                );
                Err(why)
            },
        }
    }
}

impl JudgeSide {
    /// Read one judge off the mapping a graph wrote, or say which of the three
    /// shapes it is not. `read` is what reading the entry's fields as its shape
    /// gave.
    pub fn classify(entry: &Entry, read: Result<JudgeSide, String>) -> (side: Result<
        JudgeSide,
        String,
    >)
        ensures
            agrees(side, side_of(*entry, read)),
            side matches Ok(found) ==> shape_of(*entry) == Ok::<Shape, Seq<char>>(
                shape_of_side(found),
            ),
    {
        match entry.shape() {
            Err(why) => Err(why),
            Ok(shape) => {
                let mut said = String::from_str(shape.name());
                match read {
                    Err(why) => {
                        said.append(": ");
                        said.append(why.as_str());
                        Err(said)
                    },
                    Ok(side) => {
                        let other = side_shape(&side);
                        if other != shape {
                            said.append(": its fields were read as ");
                            said.append(other.name());
                            return Err(said);
                        }
                        if let Entry::Mapping { keys, .. } = entry {
                            if let Some(key) = find_undeclared(keys, shape) {
                                said.append(": unknown field `");
                                said.append(key.as_str());
                                said.append("`");
                                return Err(said);
                            }
                        }
                        Ok(side)
                    },
                }
            },
        }
    }
}

/// A judge list as a document wrote it, with what reading each side gave.
#[derive(Debug)]
pub enum Written {
    /// A list of entries.
    List(Vec<(Entry, Result<JudgeSide, String>)>),
    /// One mapping.
    One(Entry, Result<JudgeSide, String>),
    /// Neither, by its JSON text.
    Neither(String),
}

/// What is wrong with the first entry of a list that is not a side, among the
/// first `upto`.
pub open spec fn entry_refusal(
    entries: Seq<(Entry, Result<JudgeSide, String>)>,
    upto: nat,
) -> Option<Seq<char>>
    decreases upto,
{
    if upto == 0 {
        None
    } else {
        match entry_refusal(entries, (upto - 1) as nat) {
            Some(why) => Some(why),
            None => match side_of(entries[upto - 1].0, entries[upto - 1].1) {
                Ok(_) => None,
                Err(why) => Some("judge entry "@ + decimal(upto) + ": "@ + why),
            },
        }
    }
}

proof fn the_first_refused_entry_answers(
    entries: Seq<(Entry, Result<JudgeSide, String>)>,
    at: nat,
    upto: nat,
)
    requires
        at <= upto,
        entry_refusal(entries, at) is Some,
    ensures
        entry_refusal(entries, upto) == entry_refusal(entries, at),
    decreases upto,
{
    if at < upto {
        the_first_refused_entry_answers(entries, at, (upto - 1) as nat);
    }
}

/// Why a written judge list cannot be read, when it cannot.
pub open spec fn written_refusal(written: Written) -> Option<Seq<char>> {
    match written {
        Written::List(entries) => entry_refusal(entries@, entries@.len()),
        Written::One(entry, read) => match side_of(entry, read) {
            Ok(_) => None,
            Err(why) => Some("judge: "@ + why),
        },
        Written::Neither(text) => Some(
            "judge: "@ + text@ + " is neither one side nor a list of sides"@,
        ),
    }
}

/// The sides a readable list holds.
pub open spec fn sides_of(written: Written) -> Seq<JudgeSide> {
    match written {
        Written::List(entries) => entries@.map_values(
            |entry: (Entry, Result<JudgeSide, String>)| entry.1->Ok_0,
        ),
        Written::One(_, read) => seq![read->Ok_0],
        Written::Neither(_) => seq![],
    }
}

fn read_list(entries: Vec<(Entry, Result<JudgeSide, String>)>) -> (sides: Result<
    Vec<JudgeSide>,
    String,
>)
    ensures
        match entry_refusal(entries@, entries@.len()) {
            Some(why) => sides matches Err(text) && text@ == why,
            None => sides matches Ok(list) && list@ == sides_of(Written::List(entries)),
        },
{
    let ghost all = entries@;
    let ghost wanted = sides_of(Written::List(entries));
    let total: usize = entries.len();
    let mut rest = entries;
    let mut sides: Vec<JudgeSide> = Vec::new();
    assert(all.skip(0) =~= all);
    while rest.len() > 0
        invariant
            rest@ == all.skip(sides@.len() as int),
            sides@.len() + rest@.len() == all.len(),
            all.len() == entries@.len(),
            all == entries@,
            wanted == all.map_values(
                |entry: (Entry, Result<JudgeSide, String>)| entry.1->Ok_0,
            ),
            entry_refusal(all, sides@.len()) is None,
            sides@ == wanted.take(sides@.len() as int),
            total == all.len(),
        decreases rest@.len(),
    {
        let number: u64 = sides.len() as u64 + 1;
        let ghost at = sides@.len() as int;
        let (entry, read) = rest.remove(0);
        assert(rest@ =~= all.skip(at + 1));
        assert(all[at] == (entry, read));
        match JudgeSide::classify(&entry, read) {
            Ok(side) => {
                sides.push(side);
                assert(wanted.take(at + 1) =~= wanted.take(at).push(wanted[at]));
            },
            Err(why) => {
                let mut said = String::from_str("judge entry ");
                said.append(write_decimal(number).as_str());
                said.append(": ");
                said.append(why.as_str());
                proof {
                    the_first_refused_entry_answers(all, number as nat, all.len());
                }
                return Err(said);
            },
        }
    }
    assert(wanted.take(all.len() as int) =~= wanted);
    Ok(sides)
}

/// One mapping or a list of them, read into one list. A shape that is neither is
/// refused naming the entry.
pub fn read_judges(written: Written) -> (sides: Result<Vec<JudgeSide>, String>)
    ensures
        match written_refusal(written) {
            Some(why) => sides matches Err(text) && text@ == why,
            None => sides matches Ok(list) && list@ == sides_of(written),
        },
{
    match written {
        Written::List(entries) => read_list(entries),
        Written::One(entry, read) => match JudgeSide::classify(&entry, read) {
            Ok(side) => {
                let mut sides: Vec<JudgeSide> = Vec::new();
                sides.push(side);
                assert(sides@ =~= seq![side]);
                Ok(sides)
            },
            Err(why) => {
                let mut said = String::from_str("judge: ");
                said.append(why.as_str());
                Err(said)
            },
        },
        Written::Neither(text) => {
            let mut said = String::from_str("judge: ");
            said.append(text.as_str());
            said.append(" is neither one side nor a list of sides");
            Err(said)
        },
    }
}

/// Whether a list is written back as the single mapping it reads from, which is
/// how a list of one is.
pub fn written_alone(sides: &Vec<JudgeSide>) -> (alone: bool)
    ensures
        alone == (sides@.len() == 1),
{
    sides.len() == 1
}

/// One side and a list of that one side read into the same list.
pub proof fn both_spellings_read_alike(
    entry: Entry,
    read: Result<JudgeSide, String>,
    list: Vec<(Entry, Result<JudgeSide, String>)>,
)
    requires
        list@ == seq![(entry, read)],
    ensures
        written_refusal(Written::One(entry, read)) is None <==> written_refusal(
            Written::List(list),
        ) is None,
        sides_of(Written::One(entry, read)) == sides_of(Written::List(list)),
{
    reveal_with_fuel(entry_refusal, 2);
    assert(sides_of(Written::One(entry, read)) =~= sides_of(Written::List(list)));
}

// ---- Writing a list ----
/// A field's name, where the field is there.
pub open spec fn where_given(key: Seq<char>, value: Option<String>) -> Seq<Seq<char>> {
    match value {
        Some(_) => seq![key],
        None => seq![],
    }
}

/// The fields a side is written with, in order: those it requires, and of the others the
/// ones it has.
pub open spec fn fields_written(side: JudgeSide) -> Seq<Seq<char>> {
    match side {
        JudgeSide::Harness(side) => seq!["oneharness_config"@] + where_given("model"@, side.model)
            + where_given("label"@, side.label),
        JudgeSide::Llmlint(side) => seq!["kind"@] + where_given("config"@, side.config)
            + where_given("bin"@, side.bin) + where_given("diff_base"@, side.diff_base) + if side.args@.len()
            > 0 {
            seq!["args"@]
        } else {
            seq![]
        } + where_given("label"@, side.label),
        JudgeSide::Command(side) => seq!["command"@] + where_given("label"@, side.label),
    }
}

/// Whether an entry is the mapping a side is written as.
pub open spec fn writes_side(entry: Entry, side: JudgeSide) -> bool {
    entry matches Entry::Mapping { keys, kind } && texts_of(keys@) == fields_written(side) && if side
        is Llmlint {
        kind matches Some(kind) && kind.string() == Some("llmlint"@)
    } else {
        kind is None
    }
}

/// Whether `written` is what a list is written as: the one side's own mapping where it
/// holds one, and a list of mappings in order otherwise. What reading the fields of a
/// side's own mapping gives is that side.
pub open spec fn writes_list(written: Written, sides: Seq<JudgeSide>) -> bool {
    if sides.len() == 1 {
        written matches Written::One(entry, read) && writes_side(entry, sides[0]) && read == Ok::<
            JudgeSide,
            String,
        >(sides[0])
    } else {
        written matches Written::List(entries) && entries@.len() == sides.len() && forall|i: int|
            0 <= i < sides.len() ==> writes_side((#[trigger] entries@[i]).0, sides[i])
                && entries@[i].1 == Ok::<JudgeSide, String>(sides[i])
    }
}

fn push_given(keys: &mut Vec<String>, key: &str, value: &Option<String>)
    ensures
        texts_of(final(keys)@) == texts_of(old(keys)@) + where_given(key@, *value),
{
    let ghost was = texts_of(keys@);
    if value.is_some() {
        keys.push(String::from_str(key));
    }
    assert(texts_of(keys@) =~= was + where_given(key@, *value));
}

/// The mapping a side is written as.
pub fn write_side(side: &JudgeSide) -> (entry: Entry)
    ensures
        writes_side(entry, *side),
{
    let mut keys: Vec<String> = Vec::new();
    match side {
        JudgeSide::Harness(side) => {
            keys.push(String::from_str("oneharness_config"));
            assert(texts_of(keys@) =~= seq!["oneharness_config"@]);
            push_given(&mut keys, "model", &side.model);
            push_given(&mut keys, "label", &side.label);
            Entry::Mapping { keys, kind: None }
        },
        JudgeSide::Llmlint(side) => {
            keys.push(String::from_str("kind"));
            assert(texts_of(keys@) =~= seq!["kind"@]);
            push_given(&mut keys, "config", &side.config);
            push_given(&mut keys, "bin", &side.bin);
            push_given(&mut keys, "diff_base", &side.diff_base);
            let ghost was = texts_of(keys@);
            if side.args.len() > 0 {
                keys.push(String::from_str("args"));
                assert(texts_of(keys@) =~= was + seq!["args"@]);
            } else {
                assert(texts_of(keys@) =~= was + Seq::<Seq<char>>::empty());
            }
            push_given(&mut keys, "label", &side.label);
            Entry::Mapping { keys, kind: Some(LabelValue::Text(String::from_str("llmlint"))) }
        },
        JudgeSide::Command(side) => {
            keys.push(String::from_str("command"));
            assert(texts_of(keys@) =~= seq!["command"@]);
            push_given(&mut keys, "label", &side.label);
            Entry::Mapping { keys, kind: None }
        },
    }
}

/// A list as it is written: a one-element list as the single mapping it reads from, and
/// any other length as the list.
pub fn write_judges(sides: Vec<JudgeSide>) -> (written: Written)
    ensures
        writes_list(written, sides@),
{
    let ghost all = sides@;
    let alone = written_alone(&sides);
    let mut rest = sides;
    if alone {
        let side = rest.remove(0);
        let entry = write_side(&side);
        return Written::One(entry, Ok(side));
    }
    let mut entries: Vec<(Entry, Result<JudgeSide, String>)> = Vec::new();
    assert(all.skip(0) =~= all);
    while rest.len() > 0
        invariant
            all == sides@,
            rest@ == all.skip(entries@.len() as int),
            entries@.len() + rest@.len() == all.len(),
            forall|i: int|
                0 <= i < entries@.len() ==> writes_side((#[trigger] entries@[i]).0, all[i])
                    && entries@[i].1 == Ok::<JudgeSide, String>(all[i]),
        decreases rest@.len(),
    {
        let ghost at = entries@.len() as int;
        let side = rest.remove(0);
        assert(side == all[at]);
        assert(rest@ =~= all.skip(at + 1));
        let entry = write_side(&side);
        entries.push((entry, Ok(side)));
    }
    Written::List(entries)
}

proof fn a_key_is_held(keys: Seq<String>, key: Seq<char>, at: int)
    requires
        0 <= at < keys.len(),
        texts_of(keys)[at] == key,
    ensures
        holds_text(keys, key),
{
    assert(keys[at]@ == key);
}

/// The mapping a side is written as reads as that side.
pub proof fn a_written_side_reads_back(entry: Entry, side: JudgeSide)
    requires
        writes_side(entry, side),
    ensures
        side_of(entry, Ok(side)) == Ok::<JudgeSide, Seq<char>>(side),
{
    let keys = keys_of(entry);
    let shape = shape_of_side(side);
    let fields = fields_written(side);
    reveal_strlit("oneharness_config");
    reveal_strlit("model");
    reveal_strlit("label");
    reveal_strlit("kind");
    reveal_strlit("config");
    reveal_strlit("bin");
    reveal_strlit("diff_base");
    reveal_strlit("args");
    reveal_strlit("command");
    assert forall|i: int| 0 <= i < keys.len() implies shape.declares((#[trigger] keys[i])@) by {
        assert(texts_of(keys)[i] == keys[i]@);
        assert(keys[i]@ == fields[i]);
    }
    every_key_is_looked_at(keys, shape);
    a_key_is_held(keys, fields[0], 0);
    if !(side is Harness) {
        assert forall|i: int| 0 <= i < keys.len() implies (#[trigger] keys[i])@
            != "oneharness_config"@ by {
            assert(shape.declares(keys[i]@));
            assert("oneharness_config"@.len() == 17);
        }
    }
}

/// A list that is written and read again is the same list, whatever it holds: one
/// mapping where it holds one side, and a list of them in order otherwise.
pub proof fn a_written_list_reads_back(sides: Seq<JudgeSide>, written: Written)
    requires
        writes_list(written, sides),
    ensures
        written_refusal(written) is None,
        sides_of(written) == sides,
        written is One <==> sides.len() == 1,
        written is List <==> sides.len() != 1,
{
    match written {
        Written::One(entry, _) => {
            a_written_side_reads_back(entry, sides[0]);
        },
        Written::List(entries) => {
            every_written_entry_reads(entries@, sides, entries@.len());
        },
        Written::Neither(_) => {},
    }
    assert(sides_of(written) =~= sides);
}

proof fn every_written_entry_reads(
    entries: Seq<(Entry, Result<JudgeSide, String>)>,
    sides: Seq<JudgeSide>,
    upto: nat,
)
    requires
        upto <= entries.len() == sides.len(),
        forall|i: int|
            0 <= i < sides.len() ==> writes_side((#[trigger] entries[i]).0, sides[i])
                && entries[i].1 == Ok::<JudgeSide, String>(sides[i]),
    ensures
        entry_refusal(entries, upto) is None,
    decreases upto,
{
    if upto > 0 {
        every_written_entry_reads(entries, sides, (upto - 1) as nat);
        assert(writes_side(entries[upto - 1].0, sides[upto - 1]));
        a_written_side_reads_back(entries[upto - 1].0, sides[upto - 1]);
    }
}

} // verus!
