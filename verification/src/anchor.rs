//! The one place a written relative path is anchored to the directory the config
//! naming it was written in.
//!
//! Paths are text under the rules of a Unix host, with `/` between their components,
//! and the splice is textual: a base with a root of its own anchors a path to the same
//! text in every process. A base with none is made absolute first, against the
//! directory the process runs in, because that is the one it was written against.

use vstd::prelude::*;
use vstd::string::StringExecFns;

use crate::text::{characters, join, same, separated, text_of, texts_of};

verus! {

/// Whether a path carries a root of its own, and so says where it starts from: under
/// the rules of a Unix host, whether it begins with the separator.
pub open spec fn rooted(path: Seq<char>) -> bool {
    path.len() > 0 && path[0] == '/'
}

/// The runs of a path between its separators, in order.
pub open spec fn runs(path: Seq<char>) -> Seq<Seq<char>>
    decreases path.len(),
{
    if path.len() == 0 {
        seq![]
    } else {
        let before = runs(path.drop_last());
        if path.last() == '/' {
            before
        } else if path.len() == 1 || path[path.len() - 2] == '/' {
            before.push(seq![path.last()])
        } else {
            before.drop_last().push(before.last().push(path.last()))
        }
    }
}

/// The components a path is made of: its runs, but for the ones that name the
/// directory they stand in.
pub open spec fn components(path: Seq<char>) -> Seq<Seq<char>> {
    without_here(runs(path))
}

/// `parts` without the ones that are a single dot.
pub open spec fn without_here(parts: Seq<Seq<char>>) -> Seq<Seq<char>>
    decreases parts.len(),
{
    if parts.len() == 0 {
        seq![]
    } else if parts.last() == "."@ {
        without_here(parts.drop_last())
    } else {
        without_here(parts.drop_last()).push(parts.last())
    }
}

/// How a path from the root begins: with one separator, but with two where it was
/// written with exactly two, which a platform may read in its own way.
pub open spec fn root_of(path: Seq<char>) -> Seq<char> {
    if path.len() >= 2 && path[1] == '/' && !(path.len() >= 3 && path[2] == '/') {
        "//"@
    } else {
        "/"@
    }
}

/// A path with a separator at its end, where it names anything.
pub open spec fn closed_off(path: Seq<char>) -> Seq<char> {
    if path.len() == 0 || path.last() == '/' {
        path
    } else {
        path + "/"@
    }
}

/// A path from the root, for a process that runs in `here`: its components one
/// separator apart, after its own root or after `here` where it carries none. A
/// separator it ends with is kept. Nothing is resolved — a `..` stays as written —
/// and an empty path, which names nothing, stays as it is.
pub open spec fn absolute_of(here: Seq<char>, path: Seq<char>) -> Seq<char> {
    let parts = components(path);
    let relative = separated(parts, "/"@);
    let found = if rooted(path) {
        root_of(path) + relative
    } else if parts.len() == 0 {
        here
    } else {
        under(here, relative)
    };
    if path.len() == 0 {
        path
    } else if path.last() == '/' {
        closed_off(found)
    } else {
        found
    }
}

/// The separator a base directory is already spelled with: the last one in it, or
/// `/` when it holds none.
pub open spec fn spelled_with(base: Seq<char>) -> char
    decreases base.len(),
{
    if base.len() == 0 {
        '/'
    } else if base.last() == '/' || base.last() == '\\' {
        base.last()
    } else {
        spelled_with(base.drop_last())
    }
}

/// `written` after `base`, with exactly one separator between them.
pub open spec fn spliced(base: Seq<char>, written: Seq<char>) -> Seq<char> {
    let separator = seq![spelled_with(base)];
    let relative = separated(components(written), separator);
    if base.len() > 0 && (base.last() == '/' || base.last() == '\\') {
        base + relative
    } else {
        base + separator + relative
    }
}

/// A path under a directory: the path itself when it carries a root.
pub open spec fn under(dir: Seq<char>, path: Seq<char>) -> Seq<char> {
    if rooted(path) || dir.len() == 0 {
        path
    } else if dir.last() == '/' {
        dir + path
    } else {
        dir + "/"@ + path
    }
}

/// Whether a path carries a root of its own.
pub fn names_its_own_root(path: &str) -> (answer: bool)
    ensures
        answer == rooted(path@),
{
    let all = characters(path);
    all.len() > 0 && all[0] == '/'
}

/// The separator to splice with: the one the base directory is already spelled
/// with.
pub fn separator_of(base: &str) -> (separator: char)
    ensures
        separator == spelled_with(base@),
{
    let all = characters(base);
    let mut end: usize = all.len();
    assert(all@.take(end as int) =~= all@);
    while end > 0
        invariant
            end <= all@.len(),
            all@ == base@,
            spelled_with(base@) == spelled_with(all@.take(end as int)),
        decreases end,
    {
        let last = all[end - 1];
        assert(all@.take(end as int).last() == last);
        if last == '/' || last == '\\' {
            return last;
        }
        assert(all@.take(end as int).drop_last() =~= all@.take(end - 1));
        end = end - 1;
    }
    '/'
}

fn take_runs(path: &str) -> (found: Vec<String>)
    ensures
        texts_of(found@) == runs(path@),
{
    let all = characters(path);
    let mut found: Vec<String> = Vec::new();
    let mut current = String::new();
    let mut inside = false;
    let mut at: usize = 0;
    proof {
        assert(all@.take(0) =~= seq![]);
        assert(texts_of(found@) =~= seq![]);
    }
    while at < all.len()
        invariant
            all@ == path@,
            at <= all@.len(),
            inside == (at > 0 && all@[at - 1] != '/'),
            inside ==> runs(all@.take(at as int)) == texts_of(found@).push(current@),
            !inside ==> runs(all@.take(at as int)) == texts_of(found@) && current@.len() == 0,
        decreases all@.len() - at,
    {
        let ghost before = runs(all@.take(at as int));
        let ghost next = all@.take(at + 1);
        let ghost held = texts_of(found@);
        let ghost run = current@;
        assert(next.drop_last() =~= all@.take(at as int));
        let character = all[at];
        if character == '/' {
            if inside {
                found.push(current);
                current = String::new();
                assert(texts_of(found@) =~= held.push(run));
            }
            inside = false;
        } else {
            current.push(character);
            proof {
                if inside {
                    assert(before.drop_last() =~= held);
                } else {
                    assert(current@ =~= seq![character]);
                }
            }
            inside = true;
        }
        at = at + 1;
    }
    assert(all@.take(at as int) =~= all@);
    if inside {
        let ghost held = texts_of(found@);
        let ghost run = current@;
        found.push(current);
        assert(texts_of(found@) =~= held.push(run));
    }
    found
}

/// The components a path is made of.
pub fn take_components(path: &str) -> (found: Vec<String>)
    ensures
        texts_of(found@) == components(path@),
{
    let all = take_runs(path);
    let ghost parts = texts_of(all@);
    let mut found: Vec<String> = Vec::new();
    let mut at: usize = 0;
    proof {
        assert(parts.take(0) =~= seq![]);
        assert(texts_of(found@) =~= seq![]);
    }
    while at < all.len()
        invariant
            at <= all@.len(),
            parts == texts_of(all@),
            texts_of(found@) == without_here(parts.take(at as int)),
        decreases all@.len() - at,
    {
        let ghost held = texts_of(found@);
        assert(parts.take(at + 1).drop_last() =~= parts.take(at as int));
        assert(parts.take(at + 1).last() == all@[at as int]@);
        if !same(all[at].as_str(), ".") {
            found.push(all[at].clone());
            assert(texts_of(found@) =~= held.push(all@[at as int]@));
        }
        at = at + 1;
    }
    assert(parts.take(at as int) =~= parts);
    found
}

/// `written` after `base`, with exactly one separator between them. A `.` in
/// `written` says "the directory this config is in", which is what the base
/// already names; every other component is carried exactly as written.
pub fn splice(base: &str, written: &str) -> (path: String)
    ensures
        path@ == spliced(base@, written@),
{
    let separator = separator_of(base);
    let mut between = String::new();
    between.push(separator);
    assert(between@ =~= seq![separator]);
    let parts = take_components(written);
    let relative = join(&parts, between.as_str());
    let all = characters(base);
    let mut path = String::from_str(base);
    if !(all.len() > 0 && (all[all.len() - 1] == '/' || all[all.len() - 1] == '\\')) {
        path.append(between.as_str());
    }
    path.append(relative.as_str());
    path
}

/// A path under a directory: the path itself when it carries a root of its own.
pub fn join_path(dir: &str, path: &str) -> (joined: String)
    ensures
        joined@ == under(dir@, path@),
{
    let all = characters(dir);
    if names_its_own_root(path) || all.len() == 0 {
        return String::from_str(path);
    }
    let mut joined = String::from_str(dir);
    if all[all.len() - 1] != '/' {
        joined.append("/");
    }
    joined.append(path);
    joined
}

/// A path from the root, for a process that runs in `here`. Purely lexical:
/// nothing is read, and no link an operator wrote is followed.
pub fn absolute(here: &str, path: &str) -> (found: String)
    ensures
        found@ == absolute_of(here@, path@),
{
    let parts = take_components(path);
    let relative = join(&parts, "/");
    let all = characters(path);
    let length: usize = all.len();
    if length == 0 {
        return String::from_str(path);
    }
    let mut found = if all[0] == '/' {
        let mut rest = if length >= 2 && all[1] == '/' && !(length >= 3 && all[2] == '/') {
            String::from_str("//")
        } else {
            String::from_str("/")
        };
        rest.append(relative.as_str());
        rest
    } else if parts.len() == 0 {
        String::from_str(here)
    } else {
        join_path(here, relative.as_str())
    };
    if all[length - 1] == '/' {
        let spelled = characters(found.as_str());
        if spelled.len() > 0 && spelled[spelled.len() - 1] != '/' {
            found.append("/");
        }
    }
    found
}

/// Whether there is anything to anchor: not an empty value, nor a path that
/// already says where it starts from.
pub open spec fn anchors(written: Seq<char>) -> bool {
    written.len() > 0 && !rooted(written)
}

/// One relative path, anchored to the directory the config naming it was written
/// in, for a process that runs in `here`.
pub open spec fn anchored_of(here: Seq<char>, base_dir: Seq<char>, written: Seq<char>) -> Option<
    Seq<char>,
> {
    if !anchors(written) {
        None
    } else if rooted(base_dir) {
        Some(spliced(base_dir, written))
    } else {
        let base = if base_dir.len() == 0 {
            "."@
        } else {
            base_dir
        };
        Some(spliced(absolute_of(here, base), written))
    }
}

/// One relative path, anchored to the directory the config naming it was written
/// in. `None` when there is nothing to anchor: an empty value, or a path that
/// names its own root.
///
/// Nothing is read. Only a base with no root of its own is made absolute, against
/// the directory `here` this process runs in; an empty one is that directory.
pub fn anchored(here: &str, base_dir: &str, written: &str) -> (path: Option<String>)
    ensures
        text_of(path) == anchored_of(here@, base_dir@, written@),
{
    if written.is_empty() || names_its_own_root(written) {
        return None;
    }
    if names_its_own_root(base_dir) {
        return Some(splice(base_dir, written));
    }
    let base = if base_dir.is_empty() {
        absolute(here, ".")
    } else {
        absolute(here, base_dir)
    };
    Some(splice(base.as_str(), written))
}

/// The anchored path, or `written` exactly as it stands when there is no base to
/// anchor against or nothing to anchor.
pub open spec fn anchored_path_of(
    here: Seq<char>,
    base_dir: Option<Seq<char>>,
    written: Seq<char>,
) -> Seq<char> {
    match base_dir {
        None => written,
        Some(base) => match anchored_of(here, base, written) {
            Some(path) => path,
            None => written,
        },
    }
}

/// The same rule for a caller that keeps a path it cannot anchor.
pub fn anchored_path(here: &str, base_dir: Option<&str>, written: &str) -> (path: String)
    ensures
        path@ == anchored_path_of(here@, seen(base_dir), written@),
{
    match base_dir {
        None => String::from_str(written),
        Some(base) => match anchored(here, base, written) {
            Some(path) => path,
            None => String::from_str(written),
        },
    }
}

/// The text a borrowed value holds, when there is one.
pub open spec fn seen(text: Option<&str>) -> Option<Seq<char>> {
    match text {
        Some(value) => Some(value@),
        None => None,
    }
}

proof fn separated_parts_begin_with_the_first(parts: Seq<Seq<char>>, separator: Seq<char>)
    requires
        parts.len() > 0,
        parts[0].len() > 0,
    ensures
        separated(parts, separator).len() > 0,
        separated(parts, separator)[0] == parts[0][0],
    decreases parts.len(),
{
    if parts.len() > 1 {
        separated_parts_begin_with_the_first(parts.drop_last(), separator);
    }
}

pub(crate) proof fn runs_hold_no_separator(path: Seq<char>)
    ensures
        forall|i: int| 0 <= i < runs(path).len() ==> (#[trigger] runs(path)[i]).len() > 0,
        forall|i: int, j: int|
            0 <= i < runs(path).len() && 0 <= j < runs(path)[i].len() ==> #[trigger] runs(
                path,
            )[i][j] != '/',
        path.len() > 0 && path.last() != '/' ==> runs(path).len() > 0,
    decreases path.len(),
{
    if path.len() > 0 {
        let rest = path.drop_last();
        runs_hold_no_separator(rest);
        let earlier = runs(rest);
        let found = runs(path);
        if path.last() != '/' && path.len() > 1 && path[path.len() - 2] != '/' {
            assert(rest.last() == path[path.len() - 2]);
            assert(found == earlier.drop_last().push(earlier.last().push(path.last())));
            assert forall|i: int, j: int| 0 <= i < found.len() && 0 <= j < found[i].len() implies
                #[trigger] found[i][j] != '/' by {
                if i < found.len() - 1 {
                    assert(found[i] == earlier[i]);
                } else if j < earlier.last().len() {
                    assert(found[i][j] == earlier[earlier.len() - 1][j]);
                }
            }
        } else if path.last() != '/' {
            assert(found == earlier.push(seq![path.last()]));
            assert forall|i: int, j: int| 0 <= i < found.len() && 0 <= j < found[i].len() implies
                #[trigger] found[i][j] != '/' by {
                if i < found.len() - 1 {
                    assert(found[i] == earlier[i]);
                }
            }
        }
    }
}

proof fn what_is_kept_was_there(parts: Seq<Seq<char>>)
    ensures
        forall|i: int|
            0 <= i < without_here(parts).len() ==> parts.contains(
                #[trigger] without_here(parts)[i],
            ),
    decreases parts.len(),
{
    if parts.len() > 0 {
        what_is_kept_was_there(parts.drop_last());
        let kept = without_here(parts);
        let earlier = without_here(parts.drop_last());
        assert forall|i: int| 0 <= i < kept.len() implies parts.contains(#[trigger] kept[i]) by {
            if i < earlier.len() {
                assert(kept[i] == earlier[i]);
                let j = choose|j: int|
                    0 <= j < parts.drop_last().len() && parts.drop_last()[j] == earlier[i];
                assert(parts[j] == kept[i]);
            } else {
                assert(parts[parts.len() - 1] == kept[i]);
            }
        }
    }
}

/// A path is spliced after its base with exactly one separator between the two:
/// the anchored path begins with the base, and what follows the separator does not
/// begin with another.
pub proof fn the_splice_uses_one_separator(base: Seq<char>, written: Seq<char>)
    requires
        base.len() > 0,
    ensures
        ({
            let path = spliced(base, written);
            let ended = base.last() == '/' || base.last() == '\\';
            let start = base.len() + if ended {
                0int
            } else {
                1
            };
            &&& path.len() >= start
            &&& path.take(base.len() as int) == base
            &&& !ended ==> path[base.len() as int] == spelled_with(base)
            &&& path.len() > start ==> path[start] != '/'
        }),
{
    let path = spliced(base, written);
    let separator = seq![spelled_with(base)];
    let parts = components(written);
    let relative = separated(parts, separator);
    runs_hold_no_separator(written);
    what_is_kept_was_there(runs(written));
    assert(path.take(base.len() as int) =~= base);
    if relative.len() > 0 {
        assert(parts.len() > 0);
        let first = parts[0];
        assert(runs(written).contains(first));
        let i = choose|i: int| 0 <= i < runs(written).len() && runs(written)[i] == first;
        assert(runs(written)[i].len() > 0);
        assert(runs(written)[i][0] != '/');
        separated_parts_begin_with_the_first(parts, separator);
        let start = path.len() - relative.len();
        assert(path[start] == relative[0]);
    }
}

} // verus!
