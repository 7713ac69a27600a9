//! Where paths lead, said of how they are spelled.

use vstd::prelude::*;

use crate::anchor::{
    absolute, anchored, anchored_path, components, join_path, names_its_own_root, runs, separator_of,
    without_here,
};
use crate::judge::{
    agent_session, config_skill, conversation_dir, fixture_hold, skill_dir, skill_named, spawn_args,
    stop_files, Observation,
};
use crate::launch_laws::{a_name_is_placed, placed_in};
use crate::location::{
    a_run_added_is_a_component, a_run_added_is_one_more, component_ends, ends_go_with_runs,
    in_store, kept_ends_go_with_components, parent, parent_of, run_ends, Location,
};
use crate::payload::{Party, Role};
use crate::persona::{file_stem, last_dot};
use crate::validation_laws::one_component;

verus! {

// ---- Taking a path apart ----
/// Whether a text is one run of a path: something without a separator in it.
pub open spec fn one_run(name: Seq<char>) -> bool {
    name.len() > 0 && forall|i: int| 0 <= i < name.len() ==> #[trigger] name[i] != '/'
}

/// Whether a text names one entry of a directory: one run, and neither the directory
/// itself nor the one above.
pub open spec fn entry_name(name: Seq<char>) -> bool {
    one_run(name) && name != seq!['.'] && name != seq!['.', '.']
}

pub(crate) proof fn dots()
    ensures
        "."@ == seq!['.'],
        ".."@ == seq!['.', '.'],
        "/"@ == seq!['/'],
        ""@ == Seq::<char>::empty(),
{
    reveal_strlit(".");
    reveal_strlit("..");
    reveal_strlit("/");
    reveal_strlit("");
    assert("."@ =~= seq!['.']);
    assert(".."@ =~= seq!['.', '.']);
    assert("/"@ =~= seq!['/']);
    assert(""@ =~= Seq::<char>::empty());
}

proof fn one_run_is_itself(name: Seq<char>)
    requires
        one_run(name),
    ensures
        runs(name) == seq![name],
        run_ends(name) == seq![name.len() as int],
    decreases name.len(),
{
    let rest = name.drop_last();
    if name.len() == 1 {
        assert(rest =~= seq![]);
        assert(runs(rest) =~= seq![]);
        assert(run_ends(rest) =~= seq![]);
        assert(seq![name.last()] =~= name);
        assert(runs(name) =~= seq![name]);
        assert(run_ends(name) =~= seq![1int]);
    } else {
        assert forall|i: int| 0 <= i < rest.len() implies #[trigger] rest[i] != '/' by {
            assert(name[i] != '/');
        }
        one_run_is_itself(rest);
        assert(name[name.len() - 2] != '/');
        assert(seq![rest].drop_last() =~= seq![]);
        assert(rest.push(name.last()) =~= name);
        assert(runs(name) =~= seq![name]);
        assert(run_ends(name) =~= seq![name.len() as int]);
    }
}

proof fn one_entry_is_itself(name: Seq<char>)
    requires
        one_run(name),
        name != seq!['.'],
    ensures
        components(name) == seq![name],
{
    dots();
    one_run_is_itself(name);
    assert(seq![name].drop_last() =~= seq![]);
    assert(without_here(Seq::<Seq<char>>::empty()) =~= seq![]);
    assert(without_here(seq![name]) =~= seq![name]);
}

proof fn a_root_has_no_components()
    ensures
        components(seq!['/']) == Seq::<Seq<char>>::empty(),
        components(Seq::<char>::empty()) == Seq::<Seq<char>>::empty(),
        runs(seq!['/']) == Seq::<Seq<char>>::empty(),
{
    let root = seq!['/'];
    assert(root.drop_last() =~= seq![]);
    assert(runs(Seq::<char>::empty()) =~= seq![]);
    assert(runs(root) =~= seq![]);
    assert(without_here(Seq::<Seq<char>>::empty()) =~= seq![]);
}

/// A path with a root of its own is one that begins with the separator.
pub proof fn a_root_is_a_leading_separator(path: &str, answer: bool)
    requires
        call_ensures(names_its_own_root, (path,), answer),
    ensures
        answer <==> path@.len() > 0 && path@[0] == '/',
{
}

/// The separator a base is spelled with is the last one in it, of either kind.
pub proof fn a_separator_is_the_bases_own(base: &str, separator: char, at: int)
    requires
        call_ensures(separator_of, (base,), separator),
    ensures
        separator == '/' || separator == '\\',
        0 <= at < base@.len() && (base@[at] == '/' || base@[at] == '\\') && (forall|i: int|
            at < i < base@.len() ==> #[trigger] base@[i] != '/' && base@[i] != '\\')
            ==> separator == base@[at],
        (forall|i: int| 0 <= i < base@.len() ==> #[trigger] base@[i] != '/' && base@[i] != '\\')
            ==> separator == '/',
{
    a_separator_is_the_last(base@, at);
}

proof fn a_separator_is_the_last(base: Seq<char>, at: int)
    ensures
        crate::anchor::spelled_with(base) == '/' || crate::anchor::spelled_with(base) == '\\',
        0 <= at < base.len() && (base[at] == '/' || base[at] == '\\') && (forall|i: int|
            at < i < base.len() ==> #[trigger] base[i] != '/' && base[i] != '\\')
            ==> crate::anchor::spelled_with(base) == base[at],
        (forall|i: int| 0 <= i < base.len() ==> #[trigger] base[i] != '/' && base[i] != '\\')
            ==> crate::anchor::spelled_with(base) == '/',
    decreases base.len(),
{
    if base.len() > 0 {
        let rest = base.drop_last();
        a_separator_is_the_last(rest, at);
        if base.last() != '/' && base.last() != '\\' {
            if 0 <= at < base.len() && (forall|i: int|
                at < i < base.len() ==> #[trigger] base[i] != '/' && base[i] != '\\') {
                assert forall|i: int| at < i < rest.len() implies #[trigger] rest[i] != '/'
                    && rest[i] != '\\' by {
                    assert(base[i] != '/');
                }
            }
            if forall|i: int| 0 <= i < base.len() ==> #[trigger] base[i] != '/' && base[i] != '\\' {
                assert forall|i: int| 0 <= i < rest.len() implies #[trigger] rest[i] != '/'
                    && rest[i] != '\\' by {
                    assert(base[i] != '/');
                }
            }
        } else if 0 <= at < base.len() - 1 && (forall|i: int|
            at < i < base.len() ==> #[trigger] base[i] != '/' && base[i] != '\\') {
            assert(base[base.len() - 1] != '/');
        }
    }
}

/// Joining puts a name into its directory, and a path with a root of its own stands as it
/// is.
pub proof fn a_join_puts_a_name_into_its_directory(dir: &str, path: &str, joined: String)
    requires
        call_ensures(join_path, (dir, path), joined),
    ensures
        path@.len() > 0 && path@[0] == '/' ==> joined@ == path@,
        path@.len() > 0 && path@[0] != '/' ==> placed_in(joined@, dir@, path@),
        dir@.len() == 0 ==> joined@ == path@,
{
    if path@.len() > 0 && path@[0] != '/' {
        a_name_is_placed(dir@, path@);
    }
}

// ---- Anchoring ----
/// Whether `path` is an entry of a base directory, with one separator between the two: the
/// base's own.
pub open spec fn spliced_onto(path: Seq<char>, base: Seq<char>, name: Seq<char>) -> bool {
    if base.len() > 0 && (base.last() == '/' || base.last() == '\\') {
        path == base + name
    } else {
        ||| path == base + seq!['/'] + name
        ||| path == base + seq!['\\'] + name && base.contains('\\')
    }
}

proof fn a_name_is_spliced(base: Seq<char>, written: Seq<char>, name: Seq<char>)
    requires
        components(written) == seq![name],
    ensures
        spliced_onto(crate::anchor::spliced(base, written), base, name),
{
    let separator = crate::anchor::spelled_with(base);
    assert(crate::text::separated(seq![name], seq![separator]) == name);
    a_separator_is_the_last(base, -1);
    the_separator_is_in_the_base(base);
}

proof fn the_separator_is_in_the_base(base: Seq<char>)
    ensures
        crate::anchor::spelled_with(base) == '\\' ==> base.contains('\\'),
    decreases base.len(),
{
    if base.len() > 0 {
        let rest = base.drop_last();
        the_separator_is_in_the_base(rest);
        if base.last() == '\\' {
            assert(base[base.len() - 1] == '\\');
        } else if rest.contains('\\') {
            let i = choose|i: int| 0 <= i < rest.len() && rest[i] == '\\';
            assert(base[i] == '\\');
        }
    }
}

/// A path that names its own root is never anchored, and neither is one that says nothing;
/// a name in a base with a root of its own is that name in that base, written with a dot
/// before it or without.
pub proof fn a_relative_name_is_anchored_to_its_base(
    here: &str,
    base: &str,
    written: &str,
    path: Option<String>,
    name: Seq<char>,
)
    requires
        call_ensures(anchored, (here, base, written), path),
    ensures
        path is None <==> written@.len() == 0 || written@[0] == '/',
        base@.len() > 0 && base@[0] == '/' && one_run(name) && name != seq!['.'] && (written@ == name
            || written@ == seq!['.', '/'] + name) ==> (path matches Some(found) && spliced_onto(
            found@,
            base@,
            name,
        )),
        base@.len() == 0 && one_run(name) && name != seq!['.'] && written@ == name ==> (
        path matches Some(found) && spliced_onto(found@, here@, name)),
{
    dots();
    if one_run(name) && name != seq!['.'] {
        one_entry_is_itself(name);
        if written@ == seq!['.', '/'] + name {
            let dot = seq!['.'];
            assert(one_run(dot));
            one_run_is_itself(dot);
            a_run_added_is_one_more(dot, name);
            assert(dot + "/"@ + name =~= written@);
            assert(runs(written@) =~= seq![dot, name]);
            let both = seq![dot, name];
            assert(both.drop_last() =~= seq![dot]);
            assert(seq![dot].drop_last() =~= seq![]);
            assert(without_here(Seq::<Seq<char>>::empty()) =~= seq![]);
            assert(without_here(seq![dot]) =~= seq![]);
            assert(without_here(both) =~= seq![name]);
        }
        if written@ == name || written@ == seq!['.', '/'] + name {
            a_name_is_spliced(base@, written@, name);
            if base@.len() == 0 {
                let dot = seq!['.'];
                assert(one_run(dot));
                one_run_is_itself(dot);
                assert(seq![dot].drop_last() =~= seq![]);
                assert(without_here(Seq::<Seq<char>>::empty()) =~= seq![]);
                assert(components(dot) =~= seq![]);
                assert(crate::anchor::absolute_of(here@, dot) == here@);
                a_name_is_spliced(here@, written@, name);
            }
        }
    }
}

/// A caller that keeps what it cannot anchor gets the anchored path where there is one,
/// and what was written otherwise.
pub proof fn an_unanchored_path_is_kept(
    here: &str,
    base: Option<&str>,
    written: &str,
    path: String,
    found: Option<String>,
)
    requires
        call_ensures(anchored_path, (here, base, written), path),
        base matches Some(dir) ==> call_ensures(anchored, (here, dir, written), found),
    ensures
        base is None ==> path@ == written@,
        base is Some && found is None ==> path@ == written@,
        base is Some && found is Some ==> path@ == found->0@,
{
}

/// A name made absolute is that name in the directory the process runs in; a path from the
/// root stays from the root, and one that says nothing stays as it is.
pub proof fn a_path_is_made_absolute(here: &str, path: &str, found: String)
    requires
        call_ensures(absolute, (here, path), found),
    ensures
        path@.len() == 0 ==> found@ == path@,
        one_run(path@) && path@ != seq!['.'] ==> placed_in(found@, here@, path@),
        path@ == seq!['.'] ==> found@ == here@,
        path@.len() > 0 && path@[0] == '/' ==> found@.len() > 0 && found@[0] == '/',
        path@.len() > 0 && here@.len() > 0 && here@[0] == '/' ==> found@.len() > 0 && found@[0]
            == '/',
{
    dots();
    reveal_strlit("//");
    if one_run(path@) {
        assert(path@[path@.len() - 1] != '/');
        assert(path@[0] != '/');
        if path@ != seq!['.'] {
            one_entry_is_itself(path@);
            assert(crate::text::separated(seq![path@], "/"@) == path@);
            a_name_is_placed(here@, path@);
        } else {
            one_run_is_itself(path@);
            assert(seq![path@].drop_last() =~= seq![]);
            assert(without_here(Seq::<Seq<char>>::empty()) =~= seq![]);
            assert(components(path@) =~= seq![]);
        }
    }
}

// ---- Parents ----
/// Whether a path ends in an entry of its own: not in a separator, nor in a dot.
pub open spec fn ends_in_entry(path: Seq<char>) -> bool {
    &&& path.len() > 0
    &&& path.last() != '/'
    &&& path.last() != '.'
}

proof fn a_path_ends_where_its_last_entry_does(path: Seq<char>)
    requires
        ends_in_entry(path),
    ensures
        components(path).len() > 0,
        component_ends(path).len() == components(path).len(),
        component_ends(path).last() == path.len(),
{
    dots();
    ends_go_with_runs(path);
    kept_ends_go_with_components(runs(path), run_ends(path));
    the_last_run_ends_as_its_path(path);
    assert(runs(path).last() != "."@) by {
        if runs(path).last() == "."@ {
            assert(runs(path).last().last() == '.');
        }
    }
}

proof fn the_last_run_ends_as_its_path(path: Seq<char>)
    requires
        path.len() > 0,
        path.last() != '/',
    ensures
        runs(path).len() > 0,
        runs(path).last().len() > 0,
        runs(path).last().last() == path.last(),
{
    ends_go_with_runs(path);
    if path.len() > 1 && path[path.len() - 2] != '/' {
        ends_go_with_runs(path.drop_last());
    }
}

proof fn a_names_parent_is_its_directory(dir: Seq<char>, name: Seq<char>)
    requires
        ends_in_entry(dir),
        one_run(name),
        name != seq!['.'],
    ensures
        parent_of(dir + seq!['/'] + name) == Some(dir),
        components(dir + seq!['/'] + name) == components(dir).push(name),
{
    dots();
    let path = dir + "/"@ + name;
    a_path_ends_where_its_last_entry_does(dir);
    a_run_added_is_a_component(dir, name);
    a_run_added_is_one_more(dir, name);
    an_end_added_is_one_more(dir, name);
    let count = components(path).len();
    assert(runs(path).drop_last() =~= runs(dir));
    assert(run_ends(path).drop_last() =~= run_ends(dir));
    assert(component_ends(path) == component_ends(dir).push(path.len() as int));
    assert(component_ends(path)[count - 2] == dir.len());
    assert(path.take(dir.len() as int) =~= dir);
}

proof fn an_end_added_is_one_more(dir: Seq<char>, name: Seq<char>)
    requires
        one_run(name),
    ensures
        run_ends(dir + "/"@ + name) == run_ends(dir).push((dir.len() + 1 + name.len()) as int),
    decreases name.len(),
{
    dots();
    let whole = dir + "/"@ + name;
    let rest = name.drop_last();
    assert(whole.drop_last() =~= dir + "/"@ + rest);
    assert(name[name.len() - 1] != '/');
    if name.len() == 1 {
        assert(rest =~= seq![]);
        let slashed = dir + "/"@;
        assert(whole.drop_last() =~= slashed);
        assert(slashed.drop_last() =~= dir);
        assert(run_ends(slashed) == run_ends(dir));
        assert(whole[whole.len() - 2] == '/');
    } else {
        assert forall|i: int| 0 <= i < rest.len() implies #[trigger] rest[i] != '/' by {
            assert(name[i] != '/');
        }
        an_end_added_is_one_more(dir, rest);
        assert(whole[whole.len() - 2] == name[name.len() - 2]);
        assert(name[name.len() - 2] != '/');
        let before = run_ends(whole.drop_last());
        assert(before.drop_last() =~= run_ends(dir));
    }
}

/// The parent of an entry is the directory it stands in, that of an entry of the root is
/// the root, and a name alone stands nowhere in particular.
pub proof fn a_parent_is_the_directory_of_its_entry(
    path: &str,
    found: Option<String>,
    dir: Seq<char>,
    name: Seq<char>,
)
    requires
        call_ensures(parent, (path,), found),
        one_run(name),
        name != seq!['.'],
    ensures
        path@ == dir + seq!['/'] + name && ends_in_entry(dir) ==> (found matches Some(above)
            && above@ == dir),
        path@ == seq!['/'] + name ==> (found matches Some(above) && above@ == seq!['/']),
        path@ == name ==> (found matches Some(above) && above@.len() == 0),
        path@.len() == 0 ==> found is None,
        path@ == seq!['/'] ==> found is None,
{
    dots();
    a_root_has_no_components();
    if path@ == dir + seq!['/'] + name && ends_in_entry(dir) {
        a_names_parent_is_its_directory(dir, name);
    }
    if path@ == seq!['/'] + name {
        a_run_added_is_a_component(Seq::<char>::empty(), name);
        assert(Seq::<char>::empty() + "/"@ + name =~= path@);
        assert(components(path@) =~= seq![name]);
    }
    if path@ == name {
        one_entry_is_itself(name);
        if name[0] == '.' && name.len() == 1 {
            assert(name =~= seq!['.']);
        }
        assert(name[0] != '/');
        if name.len() > 1 {
            assert(name[1] != '/');
        }
    }
}

/// A run's stop, and one member's, are looked for among the signals of the run: two
/// directories above the member's scratch.
pub proof fn a_stop_is_looked_for_in_the_runs_signals(
    scratch: &str,
    signals: &str,
    files: Option<(String, String)>,
    root: Seq<char>,
    members: Seq<char>,
    name: Seq<char>,
)
    requires
        call_ensures(stop_files, (scratch, signals), files),
        scratch@ == root + seq!['/'] + members + seq!['/'] + name,
        ends_in_entry(root),
        one_component(members),
        one_component(name),
        one_run(signals@),
    ensures
        files matches Some((run, own)) && run@ == root + seq!['/'] + signals@ + (if signals@.last()
            == '/' {
            seq![]
        } else {
            seq!['/']
        }) + seq!['s', 't', 'o', 'p'] && own@ == root + seq!['/'] + signals@ + seq!['/'] + name
            + seq!['.', 's', 't', 'o', 'p'],
{
    dots();
    reveal_strlit("stop");
    reveal_strlit(".stop");
    assert("stop"@ =~= seq!['s', 't', 'o', 'p']);
    assert(".stop"@ =~= seq!['.', 's', 't', 'o', 'p']);
    let dir = root + seq!['/'] + members;
    a_plain_name_is_a_run(members);
    a_plain_name_is_a_run(name);
    assert(dir.last() == members.last());
    a_names_parent_is_its_directory(dir, name);
    a_names_parent_is_its_directory(root, members);
    assert(components(scratch@).last() == name);
    assert(name != ".."@) by {
        if name == ".."@ {
            assert(name[0] == '.');
        }
    }
    assert(signals@[0] != '/');
    assert(signals@[signals@.len() - 1] != '/');
    let kept = root + "/"@ + signals@;
    assert(kept.last() == signals@.last());
    assert(root + seq!['/'] + signals@ + seq!['/'] + seq!['s', 't', 'o', 'p'] =~= kept + "/"@
        + "stop"@);
    assert(root + seq!['/'] + signals@ + seq!['/'] + name + seq!['.', 's', 't', 'o', 'p'] =~= kept
        + "/"@ + (name + ".stop"@));
    assert((name + ".stop"@)[0] == name[0]);
}

pub(crate) proof fn a_plain_name_is_a_run(name: Seq<char>)
    requires
        one_component(name),
    ensures
        one_run(name),
        name != seq!['.'],
        name != seq!['.', '.'],
        ends_in_entry(name),
{
    assert(name[0] != '.');
    assert(name[name.len() - 1] != '.');
    assert(name[name.len() - 1] != '/');
}

// ---- A history file's place ----
/// A session file in a project of a store is taken apart into the store, the project and
/// the session.
pub proof fn a_session_file_is_taken_apart(
    file: &str,
    location: Option<Location>,
    store: Seq<char>,
    project: Seq<char>,
    session: Seq<char>,
)
    requires
        call_ensures(Location::of, (file,), location),
        one_component(store),
        one_component(project),
        one_component(session),
        file@ == seq!['/'] + store + seq!['/'] + project + seq!['/'] + (session + ".jsonl"@),
    ensures
        location matches Some(found) && found.store() == seq!['/'] + store && found.within()
            == project && found.named() == session,
{
    dots();
    reveal_strlit(".jsonl");
    reveal_strlit("jsonl");
    a_plain_name_is_a_run(store);
    a_plain_name_is_a_run(project);
    a_plain_name_is_a_run(session);
    let dir = seq!['/'] + store;
    let inner = dir + seq!['/'] + project;
    let name = session + ".jsonl"@;
    assert(dir.last() == store.last());
    assert(inner.last() == project.last());
    assert forall|i: int| 0 <= i < name.len() implies #[trigger] name[i] != '/' by {
        if i < session.len() {
            assert(name[i] == session[i]);
        }
    }
    assert(name[0] == session[0]);
    assert(session[0] != '.');
    assert(name != seq!['.']) by {
        assert(name.len() > 1);
    }
    a_root_has_no_components();
    a_run_added_is_a_component(Seq::<char>::empty(), store);
    assert(Seq::<char>::empty() + "/"@ + store =~= dir);
    a_names_parent_is_its_directory(dir, project);
    a_names_parent_is_its_directory(inner, name);
    let parts = components(file@);
    assert(parts =~= seq![store, project, name]);
    assert forall|i: int| 0 <= i < parts.len() implies #[trigger] parts[i] != ".."@ by {
        assert(parts[0] == store);
        assert(parts[1] == project);
        assert(parts[2] == name);
        if parts[i] == ".."@ {
            assert(parts[i][0] == '.');
            assert(store[0] != '.');
            assert(project[0] != '.');
        }
    }
    let ending = "."@ + "jsonl"@;
    assert(ending =~= ".jsonl"@);
    assert(name.skip(name.len() - ending.len()) =~= ending);
    assert(name.take(name.len() - ending.len()) =~= session);
    assert(in_store(file@));
    // The store ends where the first component does.
    a_path_ends_where_its_last_entry_does(dir);
    a_path_ends_where_its_last_entry_does(inner);
    an_end_added_is_one_more(dir, project);
    an_end_added_is_one_more(inner, name);
    a_run_added_is_one_more(dir, project);
    a_run_added_is_one_more(inner, name);
    assert(runs(inner).drop_last() =~= runs(dir));
    assert(run_ends(inner).drop_last() =~= run_ends(dir));
    assert(runs(file@).drop_last() =~= runs(inner));
    assert(run_ends(file@).drop_last() =~= run_ends(inner));
    assert(component_ends(inner) == component_ends(dir).push(inner.len() as int));
    assert(component_ends(file@) == component_ends(inner).push(file@.len() as int));
    assert(component_ends(file@)[0] == dir.len());
    assert(file@.take(dir.len() as int) =~= dir);
}

/// A file that is not from the root, or that is no session file, is nowhere in a store.
pub proof fn a_file_outside_a_store_has_no_place(file: &str, location: Option<Location>)
    requires
        call_ensures(Location::of, (file,), location),
        file@.len() == 0 || file@[0] != '/' || (file@.len() > 0 && file@.last() != 'l' && file@.last()
            != '/' && file@.last() != '.'),
    ensures
        location is None,
{
    dots();
    reveal_strlit("jsonl");
    if in_store(file@) {
        a_path_ends_where_its_last_entry_does(file@);
        the_last_run_ends_as_its_path(file@);
        let name = components(file@).last();
        assert(name == runs(file@).last()) by {
            assert(runs(file@).last() != "."@) by {
                if runs(file@).last() == "."@ {
                    assert(runs(file@).last().last() == '.');
                }
            }
        }
        let ending = "."@ + "jsonl"@;
        assert(name.skip(name.len() - ending.len()).last() == name.last());
        assert(ending.last() == 'l');
    }
}

// ---- A persona's file ----
proof fn a_last_dot_is_the_last(name: Seq<char>, at: int)
    requires
        0 <= at < name.len(),
        name[at] == '.',
        forall|i: int| at < i < name.len() ==> #[trigger] name[i] != '.',
    ensures
        last_dot(name) == at,
    decreases name.len(),
{
    if at < name.len() - 1 {
        assert(name[name.len() - 1] != '.');
        let rest = name.drop_last();
        assert forall|i: int| at < i < rest.len() implies #[trigger] rest[i] != '.' by {
            assert(name[i] != '.');
        }
        a_last_dot_is_the_last(rest, at);
    }
}

proof fn a_dotless_name_has_no_last_dot(name: Seq<char>)
    requires
        forall|i: int| 0 <= i < name.len() ==> #[trigger] name[i] != '.',
    ensures
        last_dot(name) == -1,
    decreases name.len(),
{
    if name.len() > 0 {
        let rest = name.drop_last();
        assert(name[name.len() - 1] != '.');
        assert forall|i: int| 0 <= i < rest.len() implies #[trigger] rest[i] != '.' by {
            assert(name[i] != '.');
        }
        a_dotless_name_has_no_last_dot(rest);
    }
}

/// A file is known by what stands before the last dot of its name, and by all of its name
/// where there is none.
pub proof fn a_file_is_known_without_its_extension(
    path: &str,
    stem: Option<String>,
    base: Seq<char>,
    extension: Seq<char>,
)
    requires
        call_ensures(file_stem, (path,), stem),
        one_run(base),
        base != seq!['.'],
        forall|i: int| 0 <= i < extension.len() ==> #[trigger] extension[i] != '.' && extension[i]
            != '/',
    ensures
        path@ == base + seq!['.'] + extension && base[0] != '.' ==> (stem matches Some(found)
            && found@ == base),
        path@ == base && (forall|i: int| 0 <= i < base.len() ==> #[trigger] base[i] != '.') ==> (
        stem matches Some(found) && found@ == base),
{
    dots();
    if path@ == base + seq!['.'] + extension && base[0] != '.' {
        assert forall|i: int| 0 <= i < path@.len() implies #[trigger] path@[i] != '/' by {
            if i < base.len() {
                assert(path@[i] == base[i]);
            } else if i > base.len() {
                assert(path@[i] == extension[i - base.len() - 1]);
            }
        }
        assert(path@[0] == base[0]);
        one_entry_is_itself(path@);
        a_last_dot_is_the_last(path@, base.len() as int);
        assert(path@.take(base.len() as int) =~= base);
        if path@ == ".."@ {
            assert(path@[0] == '.');
        }
    }
    if path@ == base && (forall|i: int| 0 <= i < base.len() ==> #[trigger] base[i] != '.') {
        one_entry_is_itself(base);
        a_dotless_name_has_no_last_dot(base);
        if base == ".."@ {
            assert(base[0] == '.');
        }
    }
}

// ---- A conversation's places ----
/// A conversation with no directory of its own works in its member's worktree, and any
/// other in its own; its agent side is threaded under a handle of its own, and is told its
/// config, which a judge is not.
pub proof fn a_conversation_works_in_its_own_place(
    skill: String,
    worktree: &str,
    dir: String,
    session: &str,
    handle: String,
    config: &str,
    agent: Vec<String>,
    judge: Vec<String>,
)
    requires
        call_ensures(conversation_dir, (skill, worktree), dir),
        call_ensures(agent_session, (session,), handle),
        call_ensures(spawn_args, (Role::Agent, config), agent),
        call_ensures(spawn_args, (Role::Judge, config), judge),
    ensures
        skill@ == seq!['.'] ==> dir@ == worktree@,
        skill@ != seq!['.'] ==> dir@ == skill@,
        handle@ == session@ + "-skill"@,
        agent@.len() == 2,
        agent@[0]@ == "--config"@,
        agent@[1]@ == config@,
        judge@.len() == 0,
{
    dots();
    assert(crate::text::texts_of(agent@).len() == agent@.len());
    assert(crate::text::texts_of(agent@)[0] == agent@[0]@);
    assert(crate::text::texts_of(agent@)[1] == agent@[1]@);
    assert(crate::text::texts_of(judge@).len() == judge@.len());
}

/// The skill a config names is read against the config's own directory: what anchoring it
/// there gives. A config that names none has none, and a text that is no config is refused
/// in its parser's words.
pub proof fn a_configs_skill_is_read_beside_it(
    here: &str,
    config: &str,
    text: &str,
    skill: Result<Option<String>, String>,
    named: &str,
    dir: String,
)
    requires
        call_ensures(config_skill, (here, config, text), skill),
        call_ensures(skill_dir, (here, config, named), dir),
    ensures
        skill_named(text@) is Err <==> skill is Err,
        skill matches Err(why) ==> skill_named(text@) == Err::<Option<Seq<char>>, Seq<char>>(why@),
        skill_named(text@) == Ok::<Option<Seq<char>>, Seq<char>>(None) ==> (skill matches Ok(found)
            && found is None),
        skill_named(text@) == Ok::<Option<Seq<char>>, Seq<char>>(Some(named@)) ==> (skill matches Ok(
            Some(found),
        ) && found@ == dir@),
        named@.len() > 0 && named@[0] == '/' ==> dir@ == named@,
{
}

/// A config's skill is an entry of the directory the config is in.
pub proof fn a_skill_stands_beside_its_config(
    here: &str,
    config: &str,
    named: &str,
    dir: String,
    place: Seq<char>,
    file: Seq<char>,
)
    requires
        call_ensures(skill_dir, (here, config, named), dir),
        config@ == place + seq!['/'] + file,
        ends_in_entry(place),
        place[0] == '/',
        one_run(file),
        file != seq!['.'],
        one_run(named@),
        named@ != seq!['.'],
    ensures
        spliced_onto(dir@, place, named@),
{
    dots();
    a_names_parent_is_its_directory(place, file);
    one_entry_is_itself(named@);
    a_name_is_spliced(place, named@, named@);
    assert(named@[0] != '/');
}

/// A held conversation waits at the close of the supervisor's turn and nowhere else, and
/// only where a file to wait for is named.
pub proof fn a_conversation_is_held_after_the_supervisor(
    observation: &Observation,
    named: &Option<String>,
    hold: Option<(String, String)>,
)
    requires
        call_ensures(fixture_hold, (observation, named), hold),
    ensures
        hold is Some <==> named is Some && (*observation matches Observation::TurnClosed {
            role,
            ..
        } && role == Party::User),
        hold matches Some((awaited, entered)) ==> awaited@ == (*named)->0@ && entered@
            == awaited@ + ".entered"@,
{
}

} // verus!
