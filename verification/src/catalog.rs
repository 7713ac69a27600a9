//! Checking personas: which files a path names, and what checking them comes to.

use vstd::multiset::Multiset;
use vstd::prelude::*;
use vstd::string::StringExecFns;

use crate::anchor::{components, take_components};
use crate::error::{answers, Error};
use crate::keyed::{before, is_before, order_is_total, order_is_transitive};
use crate::persona::last_dot;
use crate::text::{characters, decimal, texts_of, write_decimal};

verus! {

/// What a path given to check is.
#[derive(Debug, Clone, Copy, PartialEq, Eq, Structural)]
pub enum Target {
    /// One file, which is the persona.
    File,
    /// A directory to walk.
    Directory,
    /// Neither.
    Missing,
}

/// One entry of a directory.
#[derive(Debug, PartialEq, Eq)]
pub struct Entry {
    /// Its path.
    pub path: String,
    /// Its name, with a replacement character for what of it is not text.
    pub name: String,
    /// Whether its name is text throughout.
    pub is_text: bool,
    /// Whether it is a directory.
    pub is_dir: bool,
}

/// What a walk does with an entry.
#[derive(Debug, Clone, Copy, PartialEq, Eq, Structural)]
pub enum Role {
    /// Leave it: it is a scaffold, or no persona.
    Skip,
    /// Walk it.
    Descend,
    /// Check it.
    Persona,
}

/// Whether a file's name ends in the extension of a persona.
pub open spec fn is_yaml(name: Seq<char>) -> bool {
    let dot = last_dot(name);
    dot > 0 && name.skip(dot) == ".yaml"@
}

/// What a walk does with an entry: what begins with an underscore is the template a
/// catalog scaffolds from, file or directory. A name that is not text is no
/// template's.
pub open spec fn role_of(entry: Entry) -> Role {
    if entry.is_text && entry.name@.len() > 0 && entry.name@[0] == '_' {
        Role::Skip
    } else if entry.is_dir {
        Role::Descend
    } else if is_yaml(entry.name@) {
        Role::Persona
    } else {
        Role::Skip
    }
}

proof fn a_dot_is_in_its_name(name: Seq<char>)
    ensures
        -1 <= last_dot(name) < name.len(),
    decreases name.len(),
{
    if name.len() > 0 {
        a_dot_is_in_its_name(name.drop_last());
    }
}

fn ends_in_yaml(name: &str) -> (answer: bool)
    ensures
        answer == is_yaml(name@),
{
    let all = characters(name);
    proof {
        reveal_strlit(".yaml");
        a_dot_is_in_its_name(name@);
    }
    let length: usize = all.len();
    if length < 6 {
        proof {
            if is_yaml(name@) {
                assert(name@.skip(last_dot(name@)).len() == 5);
            }
        }
        return false;
    }
    let at: usize = length - 5;
    let ends = all[at] == '.' && all[at + 1] == 'y' && all[at + 2] == 'a' && all[at + 3] == 'm'
        && all[at + 4] == 'l';
    proof {
        if ends {
            let n = name@;
            reveal_with_fuel(last_dot, 6);
            assert(n.drop_last().drop_last().drop_last().drop_last().last() == '.');
            assert(last_dot(n) == at);
            assert(n.skip(at as int) =~= ".yaml"@);
        }
        if is_yaml(name@) {
            let dot = last_dot(name@);
            assert(name@.skip(dot).len() == 5);
            assert(dot == at);
            let tail = name@.skip(dot);
            assert(tail[0] == '.' && tail[1] == 'y' && tail[2] == 'a' && tail[3] == 'm' && tail[4]
                == 'l');
        }
    }
    ends
}

/// What a walk does with an entry.
pub fn role(entry: &Entry) -> (role: Role)
    ensures
        role == role_of(*entry),
{
    let name = characters(entry.name.as_str());
    if entry.is_text && name.len() > 0 && name[0] == '_' {
        Role::Skip
    } else if entry.is_dir {
        Role::Descend
    } else if ends_in_yaml(entry.name.as_str()) {
        Role::Persona
    } else {
        Role::Skip
    }
}

/// The paths of the entries a walk has one role for, in order.
pub open spec fn chosen(entries: Seq<Result<Entry, String>>, role: Role) -> Seq<Seq<char>>
    decreases entries.len(),
{
    if entries.len() == 0 {
        seq![]
    } else {
        let earlier = chosen(entries.drop_last(), role);
        match entries.last() {
            Ok(entry) => if role_of(entry) == role {
                earlier.push(entry.path@)
            } else {
                earlier
            },
            Err(_) => earlier,
        }
    }
}

/// Why reading a directory stops a walk, if it does: a walk that skipped what it
/// could not read would pass a directory it never finished.
pub open spec fn walk_refusal(
    dir: Seq<char>,
    entries: Result<Vec<Result<Entry, String>>, String>,
) -> Option<Seq<char>> {
    match entries {
        Err(err) => Some("cannot read "@ + dir + ": "@ + err@),
        Ok(entries) => first_unread(dir, entries@),
    }
}

/// What is said of the first entry that could not be read.
pub open spec fn first_unread(dir: Seq<char>, entries: Seq<Result<Entry, String>>) -> Option<
    Seq<char>,
>
    decreases entries.len(),
{
    if entries.len() == 0 {
        None
    } else {
        match first_unread(dir, entries.drop_last()) {
            Some(why) => Some(why),
            None => match entries.last() {
                Ok(_) => None,
                Err(err) => Some("cannot read an entry of "@ + dir + ": "@ + err@),
            },
        }
    }
}

proof fn an_unread_entry_stays_first(dir: Seq<char>, entries: Seq<Result<Entry, String>>, upto: int)
    requires
        0 <= upto <= entries.len(),
        first_unread(dir, entries.take(upto)) is Some,
    ensures
        first_unread(dir, entries) == first_unread(dir, entries.take(upto)),
    decreases entries.len() - upto,
{
    if upto == entries.len() {
        assert(entries.take(upto) =~= entries);
    } else {
        assert(entries.take(upto + 1).drop_last() =~= entries.take(upto));
        an_unread_entry_stays_first(dir, entries, upto + 1);
    }
}

/// A walk of a directory: what is still to be read, and what was found.
#[derive(Debug, PartialEq, Eq)]
pub struct Walk {
    /// The directories still to be read, the next one last.
    pub ahead: Vec<String>,
    /// The personas found so far.
    pub found: Vec<String>,
}

impl Walk {
    /// A walk from one directory.
    pub fn from(path: &str) -> (walk: Self)
        ensures
            texts_of(walk.ahead@) == seq![path@],
            walk.found@.len() == 0,
    {
        let mut ahead: Vec<String> = Vec::new();
        ahead.push(String::from_str(path));
        assert(texts_of(ahead@) =~= seq![path@]);
        Walk { ahead, found: Vec::new() }
    }

    /// The directory to read next.
    pub fn next(&mut self) -> (dir: Option<String>)
        ensures
            final(self).found == old(self).found,
            match dir {
                Some(dir) => old(self).ahead@.len() > 0 && dir == old(self).ahead@.last()
                    && final(self).ahead@ == old(self).ahead@.drop_last(),
                None => old(self).ahead@.len() == 0 && final(self).ahead@ == old(self).ahead@,
            },
    {
        self.ahead.pop()
    }

    /// Take in what reading a directory came to.
    #[verifier::loop_isolation(false)]
    pub fn take(&mut self, dir: &str, entries: Result<Vec<Result<Entry, String>>, String>) -> (read:
        Result<(), Error>)
        ensures
            answers(read, walk_refusal(dir@, entries)),
            read is Ok ==> texts_of(final(self).ahead@) == texts_of(old(self).ahead@) + chosen(
                entries->Ok_0@,
                Role::Descend,
            ),
            read is Ok ==> texts_of(final(self).found@) == texts_of(old(self).found@) + chosen(
                entries->Ok_0@,
                Role::Persona,
            ),
    {
        let entries = match entries {
            Ok(entries) => entries,
            Err(err) => {
                let mut why = String::from_str("cannot read ");
                why.append(dir);
                why.append(": ");
                why.append(err.as_str());
                return Err(Error::InvalidConfig(why));
            },
        };
        let ghost ahead = texts_of(self.ahead@);
        let ghost found = texts_of(self.found@);
        let ghost all = entries@;
        let mut at: usize = 0;
        assert(ahead =~= ahead + chosen(all.take(0), Role::Descend));
        assert(found =~= found + chosen(all.take(0), Role::Persona));
        while at < entries.len()
            invariant
                at <= entries@.len(),
                all == entries@,
                texts_of(self.ahead@) == ahead + chosen(all.take(at as int), Role::Descend),
                texts_of(self.found@) == found + chosen(all.take(at as int), Role::Persona),
                first_unread(dir@, all.take(at as int)) is None,
            decreases entries@.len() - at,
        {
            let ghost held_ahead = texts_of(self.ahead@);
            let ghost held_found = texts_of(self.found@);
            assert(all.take(at + 1).drop_last() =~= all.take(at as int));
            assert(all.take(at + 1).last() == all[at as int]);
            match &entries[at] {
                Err(err) => {
                    proof {
                        an_unread_entry_stays_first(dir@, all, at + 1);
                    }
                    let mut why = String::from_str("cannot read an entry of ");
                    why.append(dir);
                    why.append(": ");
                    why.append(err.as_str());
                    return Err(Error::InvalidConfig(why));
                },
                Ok(entry) => match role(entry) {
                    Role::Skip => {},
                    Role::Descend => {
                        self.ahead.push(entry.path.clone());
                        assert(texts_of(self.ahead@) =~= held_ahead.push(entry.path@));
                        assert(texts_of(self.ahead@) =~= ahead + chosen(
                            all.take(at + 1),
                            Role::Descend,
                        ));
                    },
                    Role::Persona => {
                        self.found.push(entry.path.clone());
                        assert(texts_of(self.found@) =~= held_found.push(entry.path@));
                        assert(texts_of(self.found@) =~= found + chosen(
                            all.take(at + 1),
                            Role::Persona,
                        ));
                    },
                },
            }
            at = at + 1;
        }
        assert(all.take(at as int) =~= all);
        Ok(())
    }
}

/// Whether one path comes before another: by their first different component, and
/// a directory before what is under it.
pub open spec fn parts_before(left: Seq<Seq<char>>, right: Seq<Seq<char>>) -> bool
    decreases left.len(),
{
    if right.len() == 0 {
        false
    } else if left.len() == 0 {
        true
    } else if left[0] != right[0] {
        before(left[0], right[0])
    } else {
        parts_before(left.drop_first(), right.drop_first())
    }
}

/// Whether one path comes before another.
pub open spec fn path_before(left: Seq<char>, right: Seq<char>) -> bool {
    parts_before(components(left), components(right))
}

fn is_path_before(left: &str, right: &str) -> (answer: bool)
    ensures
        answer == path_before(left@, right@),
{
    let a = take_components(left);
    let b = take_components(right);
    let ghost left_parts = texts_of(a@);
    let ghost right_parts = texts_of(b@);
    let mut at: usize = 0;
    assert(left_parts.skip(0) =~= left_parts);
    assert(right_parts.skip(0) =~= right_parts);
    while at < a.len() && at < b.len()
        invariant
            left_parts == texts_of(a@),
            right_parts == texts_of(b@),
            left_parts == components(left@),
            right_parts == components(right@),
            at <= a@.len(),
            at <= b@.len(),
            path_before(left@, right@) == parts_before(
                left_parts.skip(at as int),
                right_parts.skip(at as int),
            ),
        decreases a@.len() - at,
    {
        let one = a[at].as_str();
        let other = b[at].as_str();
        assert(left_parts.skip(at as int)[0] == one@);
        assert(right_parts.skip(at as int)[0] == other@);
        proof {
            order_is_total(one@, other@);
            order_is_total(other@, one@);
        }
        if is_before(one, other) {
            return true;
        }
        if is_before(other, one) {
            return false;
        }
        assert(left_parts.skip(at as int).drop_first() =~= left_parts.skip(at + 1));
        assert(right_parts.skip(at as int).drop_first() =~= right_parts.skip(at + 1));
        at = at + 1;
    }
    at < b.len()
}

/// Of two paths made of different components exactly one comes before the other,
/// and neither where they are made of the same.
pub proof fn path_order_is_total(left: Seq<Seq<char>>, right: Seq<Seq<char>>)
    ensures
        parts_before(left, right) ==> left != right && !parts_before(right, left),
        left != right ==> parts_before(left, right) || parts_before(right, left),
    decreases left.len(),
{
    if left.len() > 0 && right.len() > 0 {
        order_is_total(left[0], right[0]);
        order_is_total(right[0], left[0]);
        if left[0] == right[0] {
            path_order_is_total(left.drop_first(), right.drop_first());
            if left.drop_first() == right.drop_first() {
                assert(left =~= seq![left[0]] + left.drop_first());
                assert(right =~= seq![right[0]] + right.drop_first());
            }
        }
    } else if left.len() == 0 && right.len() == 0 {
        assert(left =~= right);
    }
}

/// What comes before a path comes before everything that path comes before.
pub proof fn path_order_is_transitive(
    left: Seq<Seq<char>>,
    middle: Seq<Seq<char>>,
    right: Seq<Seq<char>>,
)
    requires
        parts_before(left, middle),
        parts_before(middle, right),
    ensures
        parts_before(left, right),
    decreases left.len(),
{
    if left.len() > 0 {
        if left[0] == middle[0] && middle[0] == right[0] {
            path_order_is_transitive(left.drop_first(), middle.drop_first(), right.drop_first());
        } else if left[0] != middle[0] && middle[0] != right[0] {
            order_is_transitive(left[0], middle[0], right[0]);
            order_is_total(left[0], right[0]);
        }
    }
}

/// Whether no path in `paths` stands after one it comes before.
pub open spec fn in_order(paths: Seq<Seq<char>>) -> bool {
    forall|i: int, j: int|
        0 <= i < j < paths.len() ==> !path_before(#[trigger] paths[j], #[trigger] paths[i])
}

/// The same paths, in order.
fn sort_paths(found: Vec<String>) -> (paths: Vec<String>)
    ensures
        in_order(texts_of(paths@)),
        texts_of(paths@).to_multiset() == texts_of(found@).to_multiset(),
{
    broadcast use {
        vstd::seq_lib::group_to_multiset_ensures,
        vstd::multiset::group_multiset_axioms,
    };

    let ghost whole = texts_of(found@);
    let mut rest = found;
    let mut paths: Vec<String> = Vec::new();
    assert(texts_of(paths@) =~= seq![]);
    assert(Multiset::<Seq<char>>::empty().add(whole.to_multiset()) =~= whole.to_multiset());
    while rest.len() > 0
        invariant
            in_order(texts_of(paths@)),
            texts_of(paths@).to_multiset().add(texts_of(rest@).to_multiset())
                == whole.to_multiset(),
        decreases rest@.len(),
    {
        let ghost was = texts_of(rest@);
        let ghost sorted = texts_of(paths@);
        let last = rest.pop();
        assert(texts_of(rest@) =~= was.drop_last());
        if let Some(path) = last {
            let ghost kept = path@;
            assert(was.last() == kept);
            let mut at: usize = 0;
            while at < paths.len() && is_path_before(paths[at].as_str(), path.as_str())
                invariant
                    at <= paths@.len(),
                    sorted == texts_of(paths@),
                    path@ == kept,
                    forall|i: int| 0 <= i < at ==> path_before(#[trigger] sorted[i], kept),
                decreases paths@.len() - at,
            {
                at = at + 1;
            }
            assert(at < sorted.len() ==> !path_before(sorted[at as int], kept));
            paths.insert(at, path);
            proof {
                let now = texts_of(paths@);
                assert(now =~= sorted.insert(at as int, kept));
                assert(now.remove(at as int) =~= sorted);
                assert(now[at as int] == kept);
                now.to_multiset_ensures();
                assert(now.contains(kept));
                assert(now.to_multiset() =~= sorted.to_multiset().insert(kept));
                assert forall|i: int, j: int| 0 <= i < j < now.len() implies !path_before(
                    #[trigger] now[j],
                    #[trigger] now[i],
                ) by {
                    if i == at {
                        assert(now[j] == sorted[j - 1]);
                        let first = sorted[at as int];
                        if path_before(sorted[j - 1], kept) {
                            path_order_is_total(components(first), components(kept));
                            path_order_is_total(components(sorted[j - 1]), components(kept));
                            if components(first) != components(kept) {
                                path_order_is_transitive(
                                    components(sorted[j - 1]),
                                    components(kept),
                                    components(first),
                                );
                            }
                            assert(path_before(sorted[j - 1], first));
                            if j - 1 > at {
                                assert(!path_before(sorted[j - 1], sorted[at as int]));
                            }
                        }
                    } else if j == at {
                        assert(now[i] == sorted[i]);
                        path_order_is_total(components(sorted[i]), components(kept));
                    } else {
                        let a = if i < at { i } else { i - 1 };
                        let b = if j < at { j } else { j - 1 };
                        assert(now[i] == sorted[a] && now[j] == sorted[b]);
                    }
                }
                assert(was =~= texts_of(rest@).push(kept));
                texts_of(rest@).to_multiset_ensures();
                assert(was.to_multiset() =~= texts_of(rest@).to_multiset().insert(kept));
                assert(now.to_multiset().add(texts_of(rest@).to_multiset())
                    =~= sorted.to_multiset().add(was.to_multiset()));
            }
        }
    }
    assert(texts_of(rest@) =~= seq![]);
    assert(texts_of(paths@).to_multiset().add(Multiset::<Seq<char>>::empty())
        =~= texts_of(paths@).to_multiset());
    paths
}

/// Whether the personas a path names are these: the file itself, or what a walk
/// found, in order.
pub open spec fn names_personas(
    path: Seq<char>,
    target: Target,
    found: Seq<String>,
    personas: Seq<String>,
) -> bool {
    match target {
        Target::File => texts_of(personas) == seq![path],
        Target::Directory => in_order(texts_of(personas)) && texts_of(personas).to_multiset()
            == texts_of(found).to_multiset(),
        Target::Missing => false,
    }
}

/// Why a path names no personas, if it names none.
pub open spec fn personas_refusal(path: Seq<char>, target: Target, found: Seq<String>) -> Option<
    Seq<char>,
> {
    match target {
        Target::File => None,
        Target::Missing => Some("no persona at "@ + path),
        Target::Directory => if found.len() == 0 {
            Some("no personas under "@ + path)
        } else {
            None
        },
    }
}

/// Every persona a path names: one file, or every one a walk of a directory found.
pub fn personas_under(path: &str, target: Target, found: Vec<String>) -> (personas: Result<
    Vec<String>,
    Error,
>)
    ensures
        answers(personas, personas_refusal(path@, target, found@)),
        personas matches Ok(named) ==> names_personas(path@, target, found@, named@),
{
    match target {
        Target::File => {
            let mut personas: Vec<String> = Vec::new();
            personas.push(String::from_str(path));
            assert(texts_of(personas@) =~= seq![path@]);
            Ok(personas)
        },
        Target::Missing => {
            let mut why = String::from_str("no persona at ");
            why.append(path);
            Err(Error::InvalidConfig(why))
        },
        Target::Directory => {
            if found.len() == 0 {
                let mut why = String::from_str("no personas under ");
                why.append(path);
                return Err(Error::InvalidConfig(why));
            }
            Ok(sort_paths(found))
        },
    }
}

/// What checking one persona came to.
#[derive(Debug)]
pub enum Checked {
    /// It could not be read as one, and why.
    Unparsed(Error),
    /// It was read, and this is what is wrong with it.
    Parsed(Vec<String>),
}

/// Whether a check found anything.
pub open spec fn failed(checked: Checked) -> bool {
    match checked {
        Checked::Unparsed(_) => true,
        Checked::Parsed(errors) => errors@.len() > 0,
    }
}

/// What is said of one persona: each thing that is wrong with it, on its own line.
pub open spec fn complaints(name: Seq<char>, checked: Checked) -> Seq<Seq<char>> {
    match checked {
        Checked::Unparsed(error) => seq![error.said()],
        Checked::Parsed(errors) => texts_of(errors@).map_values(
            |error: Seq<char>| name + ": "@ + error,
        ),
    }
}

/// What is said of one persona, and whether it failed.
pub fn complain(name: &str, checked: &Checked) -> (said: (Vec<String>, bool))
    ensures
        texts_of(said.0@) == complaints(name@, *checked),
        said.1 == failed(*checked),
{
    let mut lines: Vec<String> = Vec::new();
    match checked {
        Checked::Unparsed(error) => {
            lines.push(error.message());
            assert(texts_of(lines@) =~= complaints(name@, *checked));
            (lines, true)
        },
        Checked::Parsed(errors) => {
            let ghost all = complaints(name@, *checked);
            let mut at: usize = 0;
            while at < errors.len()
                invariant
                    at <= errors@.len(),
                    all == complaints(name@, *checked),
                    *checked == Checked::Parsed(*errors),
                    texts_of(lines@) =~= all.take(at as int),
                decreases errors@.len() - at,
            {
                let ghost held = texts_of(lines@);
                let mut line = String::from_str(name);
                line.append(": ");
                line.append(errors[at].as_str());
                assert(line@ == all[at as int]);
                lines.push(line);
                assert(texts_of(lines@) =~= held.push(all[at as int]));
                at = at + 1;
            }
            assert(texts_of(lines@) =~= all);
            (lines, errors.len() > 0)
        },
    }
}

/// How many of the first `upto` personas failed.
pub open spec fn failures_among(checked: Seq<(String, Checked)>, upto: nat) -> nat
    decreases upto,
{
    if upto == 0 {
        0
    } else {
        failures_among(checked, (upto - 1) as nat) + if failed(checked[upto - 1].1) {
            1nat
        } else {
            0
        }
    }
}

/// What is said of the first `upto` personas, in order.
pub open spec fn complaints_among(checked: Seq<(String, Checked)>, upto: nat) -> Seq<Seq<char>>
    decreases upto,
{
    if upto == 0 {
        seq![]
    } else {
        complaints_among(checked, (upto - 1) as nat) + complaints(
            checked[upto - 1].0@,
            checked[upto - 1].1,
        )
    }
}

/// What checking personas comes to, from how many failed.
pub open spec fn verdict_refusal(failures: nat) -> Option<Seq<char>> {
    if failures > 0 {
        Some(decimal(failures) + " persona(s) invalid"@)
    } else {
        None
    }
}

/// What checking personas says, each by the name of its file, and what it comes to:
/// one that is wrong is enough for the path to be refused, and every one is looked
/// at first.
pub fn check_personas(path: &str, checked: &Vec<(String, Checked)>) -> (said: (
    Vec<String>,
    Result<String, Error>,
))
    ensures
        texts_of(said.0@) == complaints_among(checked@, checked@.len()),
        answers(said.1, verdict_refusal(failures_among(checked@, checked@.len()))),
        said.1 matches Ok(text) ==> text@ == path@ + ": OK"@,
{
    let mut lines: Vec<String> = Vec::new();
    let mut failures: usize = 0;
    let mut at: usize = 0;
    assert(texts_of(lines@) =~= seq![]);
    while at < checked.len()
        invariant
            at <= checked@.len(),
            failures <= at,
            failures == failures_among(checked@, at as nat),
            texts_of(lines@) == complaints_among(checked@, at as nat),
        decreases checked@.len() - at,
    {
        let (mut more, wrong) = complain(checked[at].0.as_str(), &checked[at].1);
        let ghost held = texts_of(lines@);
        let ghost added = texts_of(more@);
        lines.append(&mut more);
        assert(texts_of(lines@) =~= held + added);
        if wrong {
            failures = failures + 1;
        }
        at = at + 1;
    }
    (lines, verdict(path, failures))
}

fn verdict(path: &str, failures: usize) -> (line: Result<String, Error>)
    ensures
        answers(line, verdict_refusal(failures as nat)),
        line matches Ok(text) ==> text@ == path@ + ": OK"@,
{
    if failures > 0 {
        let mut why = write_decimal(failures as u64);
        why.append(" persona(s) invalid");
        return Err(Error::InvalidConfig(why));
    }
    let mut line = String::from_str(path);
    line.append(": OK");
    Ok(line)
}

/// What a scaffolded persona is announced with.
pub fn created_line(path: &str) -> (line: String)
    ensures
        line@ == "Created "@ + path@
            + " — fill in agent.instructions and user.persona, then run `oneagentgraph persona validate "@
            + path@ + "`."@,
{
    let mut line = String::from_str("Created ");
    line.append(path);
    line.append(
        " — fill in agent.instructions and user.persona, then run `oneagentgraph persona validate ",
    );
    line.append(path);
    line.append("`.");
    line
}

/// Where a scaffolded persona goes, unless something is there already.
pub fn scaffold_path(name: &str) -> (path: String)
    ensures
        path@ == name@ + ".yaml"@,
{
    let mut path = String::from_str(name);
    path.append(".yaml");
    path
}

/// What a scaffold that would overwrite a persona is refused with.
pub fn already_there(path: &str) -> (error: Error)
    ensures
        error matches Error::InvalidConfig(text) && text@ == path@ + " already exists"@,
{
    let mut text = String::from_str(path);
    text.append(" already exists");
    Error::InvalidConfig(text)
}

} // verus!
