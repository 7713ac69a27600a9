//! Where one session file sits in oneharness's history store.
//!
//! The three values taken from a path are published for someone else to join back
//! together and open on their own host, so this is the trust boundary on that
//! path: what climbs is refused rather than normalised, and only oneharness's own
//! layout is taken. Paths follow the rules of a Unix host, as in [`crate::anchor`].

use vstd::prelude::*;
use vstd::string::StringExecFns;

use crate::anchor::{components, rooted, runs, without_here};
use crate::text::{characters, same, spelled, texts_of};

verus! {

/// The extension oneharness gives a history session file.
pub const SESSION_EXTENSION: &'static str = "jsonl";

/// Where each run of a path ends.
pub open spec fn run_ends(path: Seq<char>) -> Seq<int>
    decreases path.len(),
{
    if path.len() == 0 {
        seq![]
    } else {
        let before = run_ends(path.drop_last());
        if path.last() == '/' {
            before
        } else if path.len() == 1 || path[path.len() - 2] == '/' {
            before.push(path.len() as int)
        } else {
            before.drop_last().push(path.len() as int)
        }
    }
}

/// The ends of the runs that are components, from the runs and their ends.
pub open spec fn kept_ends(parts: Seq<Seq<char>>, ends: Seq<int>) -> Seq<int>
    decreases parts.len(),
{
    if parts.len() == 0 {
        seq![]
    } else if parts.last() == "."@ {
        kept_ends(parts.drop_last(), ends.drop_last())
    } else {
        kept_ends(parts.drop_last(), ends.drop_last()).push(ends.last())
    }
}

/// Where each component of a path ends.
pub open spec fn component_ends(path: Seq<char>) -> Seq<int> {
    kept_ends(runs(path), run_ends(path))
}

/// The name a session file's own name gives its session: what stands before the
/// dot and the extension.
pub open spec fn session_named(file: Seq<char>) -> Option<Seq<char>> {
    let ending = "."@ + SESSION_EXTENSION@;
    if file.len() >= ending.len() && file.skip(file.len() - ending.len()) == ending {
        Some(file.take(file.len() - ending.len()))
    } else {
        None
    }
}

/// Whether no component of a path climbs.
pub open spec fn never_climbs(path: Seq<char>) -> bool {
    forall|i: int| 0 <= i < components(path).len() ==> #[trigger] components(path)[i] != ".."@
}

/// Whether a path is one in oneharness's own layout: from the root, climbing
/// nowhere, to a named session file in a project directory in a store that is
/// named by at least one component of its own.
pub open spec fn in_store(path: Seq<char>) -> bool {
    &&& rooted(path)
    &&& components(path).len() >= 3
    &&& never_climbs(path)
    &&& session_named(components(path).last()) matches Some(session) && session.len() > 0
}

/// The store a session file's path names, as it was written.
pub open spec fn store_of(path: Seq<char>) -> Seq<char> {
    path.take(component_ends(path)[components(path).len() - 3])
}

/// The project a session file's path names.
pub open spec fn project_of(path: Seq<char>) -> Seq<char> {
    components(path)[components(path).len() - 2]
}

/// The session a session file's path names.
pub open spec fn session_in(path: Seq<char>) -> Seq<char> {
    session_named(components(path).last())->0
}

/// The three values a consumer resolves a session file with: the store, the
/// project inside it, and the file's own name.
#[derive(Debug, PartialEq, Eq)]
pub struct Location {
    dir: String,
    project: String,
    session: String,
}

fn take_ends(path: &str) -> (found: (Vec<String>, Vec<usize>))
    ensures
        texts_of(found.0@) == runs(path@),
        found.1@.map_values(|end: usize| end as int) == run_ends(path@),
        found.0@.len() == found.1@.len(),
{
    let all = characters(path);
    let length: usize = all.len();
    let mut parts: Vec<String> = Vec::new();
    let mut ends: Vec<usize> = Vec::new();
    let mut current = String::new();
    let mut inside = false;
    let mut at: usize = 0;
    proof {
        assert(all@.take(0) =~= seq![]);
        assert(texts_of(parts@) =~= seq![]);
        assert(ends@.map_values(|end: usize| end as int) =~= seq![]);
    }
    while at < all.len()
        invariant
            all@ == path@,
            length == all@.len(),
            at <= length,
            parts@.len() == ends@.len(),
            inside == (at > 0 && all@[at - 1] != '/'),
            inside ==> runs(all@.take(at as int)) == texts_of(parts@).push(current@) && run_ends(
                all@.take(at as int),
            ) == ends@.map_values(|end: usize| end as int).push(at as int),
            !inside ==> runs(all@.take(at as int)) == texts_of(parts@) && run_ends(
                all@.take(at as int),
            ) == ends@.map_values(|end: usize| end as int) && current@.len() == 0,
        decreases length - at,
    {
        let ghost before = runs(all@.take(at as int));
        let ghost before_ends = run_ends(all@.take(at as int));
        let ghost next = all@.take(at + 1);
        let ghost held = texts_of(parts@);
        let ghost held_ends = ends@.map_values(|end: usize| end as int);
        let ghost run = current@;
        assert(next.drop_last() =~= all@.take(at as int));
        let character = all[at];
        if character == '/' {
            if inside {
                parts.push(current);
                ends.push(at);
                current = String::new();
                assert(texts_of(parts@) =~= held.push(run));
                assert(ends@.map_values(|end: usize| end as int) =~= held_ends.push(at as int));
            }
            inside = false;
        } else {
            current.push(character);
            proof {
                if inside {
                    assert(before.drop_last() =~= held);
                    assert(before_ends.drop_last() =~= held_ends);
                } else {
                    assert(current@ =~= seq![character]);
                }
            }
            inside = true;
        }
        at = at + 1;
    }
    assert(all@.take(at as int) =~= all@);
    if inside {
        let ghost held = texts_of(parts@);
        let ghost held_ends = ends@.map_values(|end: usize| end as int);
        let ghost run = current@;
        parts.push(current);
        ends.push(length);
        assert(texts_of(parts@) =~= held.push(run));
        assert(ends@.map_values(|end: usize| end as int) =~= held_ends.push(length as int));
    }
    (parts, ends)
}

fn strip_extension(file: &str) -> (session: Option<String>)
    ensures
        crate::text::text_of(session) == session_named(file@),
{
    let all = characters(file);
    let mut ending = String::from_str(".");
    ending.append(SESSION_EXTENSION);
    let suffix = characters(ending.as_str());
    if all.len() < suffix.len() {
        return None;
    }
    let start: usize = all.len() - suffix.len();
    let tail = spelled(&all, start, all.len());
    assert(tail@ =~= file@.skip(start as int));
    if !same(tail.as_str(), ending.as_str()) {
        return None;
    }
    let session = spelled(&all, 0, start);
    assert(session@ =~= file@.take(start as int));
    Some(session)
}

pub(crate) proof fn ends_go_with_runs(path: Seq<char>)
    ensures
        run_ends(path).len() == runs(path).len(),
        forall|i: int| 0 <= i < run_ends(path).len() ==> 0 < #[trigger] run_ends(path)[i] <= path.len(),
        path.len() > 0 && path.last() != '/' ==> runs(path).len() > 0 && run_ends(path).last()
            == path.len(),
    decreases path.len(),
{
    if path.len() > 0 {
        let rest = path.drop_last();
        ends_go_with_runs(rest);
        if path.last() != '/' && path.len() > 1 && path[path.len() - 2] != '/' {
            assert(rest.last() == path[path.len() - 2]);
        }
    }
}

pub(crate) proof fn kept_ends_go_with_components(parts: Seq<Seq<char>>, ends: Seq<int>)
    requires
        parts.len() == ends.len(),
    ensures
        kept_ends(parts, ends).len() == without_here(parts).len(),
        forall|i: int|
            0 <= i < kept_ends(parts, ends).len() ==> ends.contains(
                #[trigger] kept_ends(parts, ends)[i],
            ),
    decreases parts.len(),
{
    if parts.len() > 0 {
        let fewer = kept_ends(parts.drop_last(), ends.drop_last());
        kept_ends_go_with_components(parts.drop_last(), ends.drop_last());
        let kept = kept_ends(parts, ends);
        assert forall|i: int| 0 <= i < kept.len() implies ends.contains(#[trigger] kept[i]) by {
            if i < fewer.len() {
                assert(kept[i] == fewer[i]);
                let j = choose|j: int|
                    0 <= j < ends.drop_last().len() && ends.drop_last()[j] == fewer[i];
                assert(ends[j] == kept[i]);
            } else {
                assert(ends[ends.len() - 1] == kept[i]);
            }
        }
    }
}

impl Location {
    /// The store, as text.
    pub closed spec fn store(self) -> Seq<char> {
        self.dir@
    }

    /// The project, as text.
    pub closed spec fn within(self) -> Seq<char> {
        self.project@
    }

    /// The session's name, as text.
    pub closed spec fn named(self) -> Seq<char> {
        self.session@
    }

    /// Whether this is what a path in the store is taken apart into: the store as
    /// it was written, the project, and the session's name.
    pub open spec fn takes_apart(self, path: Seq<char>) -> bool {
        &&& self.store() == store_of(path)
        &&& self.within() == project_of(path)
        &&& self.named() == session_in(path)
    }

    /// One history file's path, checked and taken apart; `None` for a path that is
    /// not inside oneharness's own store.
    pub fn of(file: &str) -> (location: Option<Location>)
        ensures
            location is Some <==> in_store(file@),
            location matches Some(found) ==> found.takes_apart(file@),
    {
        let all = characters(file);
        let (parts, ends) = take_ends(file);
        let ghost runs_text = texts_of(parts@);
        let ghost ends_text = ends@.map_values(|end: usize| end as int);
        let mut named: Vec<String> = Vec::new();
        let mut named_ends: Vec<usize> = Vec::new();
        let mut at: usize = 0;
        proof {
            assert(runs_text.take(0) =~= seq![]);
            assert(texts_of(named@) =~= seq![]);
            assert(named_ends@.map_values(|end: usize| end as int) =~= seq![]);
        }
        while at < parts.len()
            invariant
                at <= parts@.len(),
                parts@.len() == ends@.len(),
                runs_text == texts_of(parts@),
                runs_text == runs(file@),
                ends_text == ends@.map_values(|end: usize| end as int),
                ends_text == run_ends(file@),
                texts_of(named@) == without_here(runs_text.take(at as int)),
                named_ends@.map_values(|end: usize| end as int) == kept_ends(
                    runs_text.take(at as int),
                    ends_text.take(at as int),
                ),
                forall|i: int| 0 <= i < named@.len() ==> (#[trigger] named@[i])@ != ".."@,
            decreases parts@.len() - at,
        {
            let ghost held = texts_of(named@);
            let ghost held_ends = named_ends@.map_values(|end: usize| end as int);
            assert(runs_text.take(at + 1).drop_last() =~= runs_text.take(at as int));
            assert(ends_text.take(at + 1).drop_last() =~= ends_text.take(at as int));
            assert(runs_text.take(at + 1).last() == parts@[at as int]@);
            assert(ends_text.take(at + 1).last() == ends@[at as int]);
            if !same(parts[at].as_str(), ".") {
                if same(parts[at].as_str(), "..") {
                    proof {
                        a_climb_is_a_component(runs_text, at as int);
                    }
                    return None;
                }
                named.push(parts[at].clone());
                named_ends.push(ends[at]);
                assert(texts_of(named@) =~= held.push(parts@[at as int]@));
                assert(named_ends@.map_values(|end: usize| end as int) =~= held_ends.push(
                    ends@[at as int] as int,
                ));
            }
            at = at + 1;
        }
        proof {
            assert(runs_text.take(at as int) =~= runs_text);
            assert(ends_text.take(at as int) =~= ends_text);
            ends_go_with_runs(file@);
            kept_ends_go_with_components(runs(file@), run_ends(file@));
            assert(texts_of(named@).len() == named@.len());
            assert(named_ends@.map_values(|end: usize| end as int).len() == named_ends@.len());
            assert(never_climbs(file@)) by {
                assert forall|i: int| 0 <= i < components(file@).len() implies #[trigger] components(
                    file@,
                )[i] != ".."@ by {
                    assert(components(file@)[i] == named@[i]@);
                }
            }
        }
        if named.len() < 3 || !(all.len() > 0 && all[0] == '/') {
            return None;
        }
        let count: usize = named.len();
        assert(components(file@).last() == named@[count - 1]@);
        let session = match strip_extension(named[count - 1].as_str()) {
            Some(session) => session,
            None => return None,
        };
        if session.as_str().is_empty() {
            return None;
        }
        let end: usize = named_ends[count - 3];
        proof {
            assert(component_ends(file@)[count - 3] == end as int);
            assert(run_ends(file@).contains(end as int));
        }
        let dir = spelled(&all, 0, end);
        assert(dir@ =~= file@.take(end as int));
        let project = named[count - 2].clone();
        assert(components(file@)[count - 2] == project@);
        Some(Location { dir, project, session })
    }

    /// The store the record was written into, absolute and named.
    pub fn dir(&self) -> (dir: &str)
        ensures
            dir@ == self.store(),
    {
        self.dir.as_str()
    }

    /// The project directory inside that store.
    pub fn project(&self) -> (project: &str)
        ensures
            project@ == self.within(),
    {
        self.project.as_str()
    }

    /// The session file's own name, without its extension.
    pub fn session(&self) -> (session: &str)
        ensures
            session@ == self.named(),
    {
        self.session.as_str()
    }
}

/// Whether a path is written from the directory it is read in: its first run is a
/// single dot.
pub open spec fn from_here(path: Seq<char>) -> bool {
    path.len() > 0 && path[0] == '.' && (path.len() == 1 || path[1] == '/')
}

/// The path of the directory a path's last component stands in, as it was
/// written: what ends where the component before it does, or the root, or nothing.
/// A dot a path begins with stands for a component of its own here.
pub open spec fn parent_of(path: Seq<char>) -> Option<Seq<char>> {
    let count = components(path).len();
    if count == 0 {
        if from_here(path) {
            Some(""@)
        } else {
            None
        }
    } else if count == 1 {
        Some(
            if rooted(path) {
                "/"@
            } else if from_here(path) {
                "."@
            } else {
                ""@
            },
        )
    } else {
        Some(path.take(component_ends(path)[count - 2]))
    }
}

/// The directory a path's last component stands in.
pub fn parent(path: &str) -> (found: Option<String>)
    ensures
        crate::text::text_of(found) == parent_of(path@),
{
    let all = characters(path);
    let (parts, ends) = take_ends(path);
    let ghost runs_text = texts_of(parts@);
    let ghost ends_text = ends@.map_values(|end: usize| end as int);
    let mut kept: Vec<usize> = Vec::new();
    let mut at: usize = 0;
    proof {
        assert(runs_text.take(0) =~= seq![]);
        assert(kept@.map_values(|end: usize| end as int) =~= seq![]);
    }
    while at < parts.len()
        invariant
            at <= parts@.len(),
            parts@.len() == ends@.len(),
            runs_text == texts_of(parts@),
            ends_text == ends@.map_values(|end: usize| end as int),
            kept@.map_values(|end: usize| end as int) == kept_ends(
                runs_text.take(at as int),
                ends_text.take(at as int),
            ),
        decreases parts@.len() - at,
    {
        let ghost held = kept@.map_values(|end: usize| end as int);
        assert(runs_text.take(at + 1).drop_last() =~= runs_text.take(at as int));
        assert(ends_text.take(at + 1).drop_last() =~= ends_text.take(at as int));
        assert(runs_text.take(at + 1).last() == parts@[at as int]@);
        assert(ends_text.take(at + 1).last() == ends@[at as int]);
        if !same(parts[at].as_str(), ".") {
            kept.push(ends[at]);
            assert(kept@.map_values(|end: usize| end as int) =~= held.push(
                ends@[at as int] as int,
            ));
        }
        at = at + 1;
    }
    proof {
        assert(runs_text.take(at as int) =~= runs_text);
        assert(ends_text.take(at as int) =~= ends_text);
        ends_go_with_runs(path@);
        kept_ends_go_with_components(runs(path@), run_ends(path@));
        assert(kept@.map_values(|end: usize| end as int).len() == kept@.len());
    }
    let count: usize = kept.len();
    let here = all.len() > 0 && all[0] == '.' && (all.len() == 1 || all[1] == '/');
    if count == 0 {
        if here {
            return Some(String::from_str(""));
        }
        return None;
    }
    if count == 1 {
        return Some(
            if all.len() > 0 && all[0] == '/' {
                String::from_str("/")
            } else if here {
                String::from_str(".")
            } else {
                String::from_str("")
            },
        );
    }
    let end: usize = kept[count - 2];
    proof {
        assert(component_ends(path@)[count - 2] == end as int);
        assert(run_ends(path@).contains(end as int));
    }
    let found = spelled(&all, 0, end);
    assert(found@ =~= path@.take(end as int));
    Some(found)
}

proof fn a_climb_is_a_component(parts: Seq<Seq<char>>, at: int)
    requires
        0 <= at < parts.len(),
        parts[at] == ".."@,
    ensures
        exists|i: int| 0 <= i < without_here(parts).len() && #[trigger] without_here(parts)[i] == ".."@,
    decreases parts.len(),
{
    reveal_strlit(".");
    reveal_strlit("..");
    if at < parts.len() - 1 {
        a_climb_is_a_component(parts.drop_last(), at);
        let i = choose|i: int|
            0 <= i < without_here(parts.drop_last()).len() && #[trigger] without_here(
                parts.drop_last(),
            )[i] == ".."@;
        assert(without_here(parts)[i] == ".."@);
    } else {
        assert("."@.len() == 1 && ".."@.len() == 2);
        assert(parts.last() != "."@);
        let kept = without_here(parts);
        assert(kept[kept.len() - 1] == ".."@);
    }
}

pub(crate) proof fn a_run_added_is_one_more(path: Seq<char>, name: Seq<char>)
    requires
        name.len() > 0,
        forall|i: int| 0 <= i < name.len() ==> name[i] != '/',
    ensures
        runs(path + "/"@ + name) == runs(path).push(name),
    decreases name.len(),
{
    reveal_strlit("/");
    let whole = path + "/"@ + name;
    let rest = name.drop_last();
    assert(whole.drop_last() =~= path + "/"@ + rest);
    if name.len() == 1 {
        assert(rest =~= seq![]);
        let slashed = path + "/"@;
        assert(whole.drop_last() =~= slashed);
        assert(slashed.drop_last() =~= path);
        assert(slashed.last() == '/');
        assert(runs(slashed) == runs(path));
        assert(whole[whole.len() - 2] == '/');
        assert(seq![whole.last()] =~= name);
    } else {
        a_run_added_is_one_more(path, rest);
        assert(whole[whole.len() - 2] == name[name.len() - 2]);
        let before = runs(whole.drop_last());
        assert(before == runs(path).push(rest));
        assert(before.drop_last() =~= runs(path));
        assert(before.last().push(whole.last()) =~= name);
    }
}

pub(crate) proof fn a_run_added_is_a_component(path: Seq<char>, name: Seq<char>)
    requires
        name.len() > 0,
        name != "."@,
        forall|i: int| 0 <= i < name.len() ==> name[i] != '/',
    ensures
        components(path + "/"@ + name) == components(path).push(name),
{
    a_run_added_is_one_more(path, name);
    assert(runs(path).push(name).drop_last() =~= runs(path));
}

proof fn a_path_cut_at_a_run_keeps_the_runs_before(path: Seq<char>, at: int)
    requires
        0 <= at < runs(path).len(),
    ensures
        run_ends(path).len() == runs(path).len(),
        0 < run_ends(path)[at] <= path.len(),
        runs(path.take(run_ends(path)[at])) == runs(path).take(at + 1),
    decreases path.len(),
{
    ends_go_with_runs(path);
    if path.len() > 0 {
        let rest = path.drop_last();
        ends_go_with_runs(rest);
        let end = run_ends(path)[at];
        if path.last() == '/' {
            a_path_cut_at_a_run_keeps_the_runs_before(rest, at);
            assert(rest.take(end) =~= path.take(end));
        } else if at == runs(path).len() - 1 {
            assert(end == path.len());
            assert(path.take(end) =~= path);
            assert(runs(path).take(at + 1) =~= runs(path));
        } else {
            if path.len() > 1 && path[path.len() - 2] != '/' {
                assert(rest.last() == path[path.len() - 2]);
            }
            a_path_cut_at_a_run_keeps_the_runs_before(rest, at);
            assert(run_ends(rest)[at] == end);
            assert(rest.take(end) =~= path.take(end));
            assert(runs(rest).take(at + 1) =~= runs(path).take(at + 1));
        }
    }
}

/// Which run the component `k` of `parts` is.
spec fn run_of(parts: Seq<Seq<char>>, k: int) -> int
    decreases parts.len(),
{
    if parts.len() == 0 {
        0
    } else if parts.last() != "."@ && without_here(parts).len() - 1 == k {
        parts.len() - 1
    } else {
        run_of(parts.drop_last(), k)
    }
}

proof fn a_component_is_a_run(parts: Seq<Seq<char>>, ends: Seq<int>, k: int)
    requires
        parts.len() == ends.len(),
        0 <= k < without_here(parts).len(),
    ensures
        0 <= run_of(parts, k) < parts.len(),
        parts[run_of(parts, k)] == without_here(parts)[k],
        kept_ends(parts, ends).len() == without_here(parts).len(),
        kept_ends(parts, ends)[k] == ends[run_of(parts, k)],
        without_here(parts.take(run_of(parts, k) + 1)) == without_here(parts).take(k + 1),
    decreases parts.len(),
{
    kept_ends_go_with_components(parts, ends);
    let at = run_of(parts, k);
    if parts.last() != "."@ && without_here(parts).len() - 1 == k {
        assert(parts.take(at + 1) =~= parts);
        assert(without_here(parts).take(k + 1) =~= without_here(parts));
    } else {
        let rest = parts.drop_last();
        a_component_is_a_run(rest, ends.drop_last(), k);
        assert(rest.take(at + 1) =~= parts.take(at + 1));
        assert(without_here(rest).take(k + 1) =~= without_here(parts).take(k + 1));
    }
}

proof fn components_are_nonempty_runs(path: Seq<char>, k: int)
    requires
        0 <= k < components(path).len(),
    ensures
        components(path)[k].len() > 0,
        components(path)[k] != "."@,
        forall|j: int| 0 <= j < components(path)[k].len() ==> components(path)[k][j] != '/',
{
    crate::anchor::runs_hold_no_separator(path);
    ends_go_with_runs(path);
    a_component_is_a_run(runs(path), run_ends(path), k);
    no_component_is_here(runs(path), k);
    let at = run_of(runs(path), k);
    assert(runs(path)[at].len() > 0);
    assert forall|j: int| 0 <= j < components(path)[k].len() implies components(path)[k][j]
        != '/' by {
        assert(runs(path)[at][j] != '/');
    }
}

proof fn no_component_is_here(parts: Seq<Seq<char>>, k: int)
    requires
        0 <= k < without_here(parts).len(),
    ensures
        without_here(parts)[k] != "."@,
    decreases parts.len(),
{
    if parts.last() == "."@ {
        no_component_is_here(parts.drop_last(), k);
    } else if k < without_here(parts).len() - 1 {
        no_component_is_here(parts.drop_last(), k);
    }
}

/// What a location is published for: its three values, joined back together, name
/// the very file they were taken from — component for component — and none of them
/// is empty.
pub proof fn a_location_names_its_file(location: Location, path: Seq<char>)
    requires
        in_store(path),
        location.takes_apart(path),
    ensures
        components(
            location.store() + "/"@ + location.within() + "/"@ + (location.named() + "."@
                + SESSION_EXTENSION@),
        ) == components(path),
        location.store().len() > 0,
        rooted(location.store()),
        location.within().len() > 0,
        location.named().len() > 0,
{
    let parts = components(path);
    let count = parts.len() as int;
    let ends = run_ends(path);
    ends_go_with_runs(path);
    a_component_is_a_run(runs(path), ends, count - 3);
    let at = run_of(runs(path), count - 3);
    a_path_cut_at_a_run_keeps_the_runs_before(path, at);
    let store = location.store();
    assert(store == path.take(ends[at]));
    assert(components(store) == parts.take(count - 2));
    components_are_nonempty_runs(path, count - 2);
    components_are_nonempty_runs(path, count - 1);
    a_run_added_is_a_component(store, location.within());
    let file = location.named() + "."@ + SESSION_EXTENSION@;
    let ending = "."@ + SESSION_EXTENSION@;
    assert(file =~= parts[count - 1]) by {
        let last = parts[count - 1];
        assert(last =~= last.take(last.len() - ending.len()) + last.skip(
            last.len() - ending.len(),
        ));
        assert(file =~= location.named() + ending);
    }
    let project = store + "/"@ + location.within();
    a_run_added_is_a_component(project, file);
    assert(parts.take(count - 2).push(parts[count - 2]).push(parts[count - 1]) =~= parts);
    assert(store[0] == path[0]);
}

} // verus!
