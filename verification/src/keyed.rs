//! Values kept by name: a list of pairs in ascending order of their names, each
//! name once.

use vstd::prelude::*;
use vstd::utf8::char_u32_cast;

use crate::text::{characters, same};

verus! {

/// Whether `left` comes before `right`, by the order of their first different
/// character, and a text before every longer one that begins with it.
pub open spec fn before(left: Seq<char>, right: Seq<char>) -> bool
    decreases left.len(),
{
    if right.len() == 0 {
        false
    } else if left.len() == 0 {
        true
    } else if left[0] != right[0] {
        (left[0] as u32) < (right[0] as u32)
    } else {
        before(left.drop_first(), right.drop_first())
    }
}

/// Whether one text comes before another.
pub fn is_before(left: &str, right: &str) -> (answer: bool)
    ensures
        answer == before(left@, right@),
{
    let a = characters(left);
    let b = characters(right);
    let mut at: usize = 0;
    assert(a@.skip(0) =~= a@);
    assert(b@.skip(0) =~= b@);
    while at < a.len() && at < b.len()
        invariant
            a@ == left@,
            b@ == right@,
            at <= a@.len(),
            at <= b@.len(),
            before(a@, b@) == before(a@.skip(at as int), b@.skip(at as int)),
        decreases a@.len() - at,
    {
        if a[at] != b[at] {
            assert(a@.skip(at as int)[0] == a@[at as int]);
            assert(b@.skip(at as int)[0] == b@[at as int]);
            return (a[at] as u32) < (b[at] as u32);
        }
        assert(a@.skip(at as int).drop_first() =~= a@.skip(at + 1));
        assert(b@.skip(at as int).drop_first() =~= b@.skip(at + 1));
        at = at + 1;
    }
    at < b.len()
}

/// Nothing comes before itself, and of two different texts exactly one comes
/// before the other.
pub proof fn order_is_total(left: Seq<char>, right: Seq<char>)
    ensures
        before(left, right) ==> left != right && !before(right, left),
        left != right ==> before(left, right) || before(right, left),
    decreases left.len(),
{
    if left.len() > 0 && right.len() > 0 && left[0] == right[0] {
        order_is_total(left.drop_first(), right.drop_first());
        assert(before(left, right) == before(left.drop_first(), right.drop_first()));
        assert(before(right, left) == before(right.drop_first(), left.drop_first()));
        if left.drop_first() == right.drop_first() {
            assert(left =~= seq![left[0]] + left.drop_first());
            assert(right =~= seq![right[0]] + right.drop_first());
        }
    } else if left.len() == 0 && right.len() == 0 {
        assert(left =~= right);
    } else if left.len() > 0 && right.len() > 0 {
        char_u32_cast(left[0], left[0] as u32);
        char_u32_cast(right[0], right[0] as u32);
    }
}

/// What comes before a text comes before everything that text comes before.
pub proof fn order_is_transitive(left: Seq<char>, middle: Seq<char>, right: Seq<char>)
    requires
        before(left, middle),
        before(middle, right),
    ensures
        before(left, right),
    decreases left.len(),
{
    if left.len() > 0 && left[0] == middle[0] && middle[0] == right[0] {
        order_is_transitive(left.drop_first(), middle.drop_first(), right.drop_first());
    }
}

/// Whether `entries` are in ascending order of their names, each name once.
pub open spec fn ordered<V>(entries: Seq<(String, V)>) -> bool {
    forall|i: int, j: int|
        0 <= i < j < entries.len() ==> before((#[trigger] entries[i]).0@, (#[trigger] entries[j]).0@)
}

/// Whether `entries` hold a value under `name`.
pub open spec fn has_name<V>(entries: Seq<(String, V)>, name: Seq<char>) -> bool {
    exists|i: int| 0 <= i < entries.len() && (#[trigger] entries[i]).0@ == name
}

/// Where the first entry called `name` is, or the length of `entries` when none
/// is called that.
pub open spec fn place<V>(entries: Seq<(String, V)>, name: Seq<char>) -> int
    decreases entries.len(),
{
    if entries.len() == 0 || entries[0].0@ == name {
        0
    } else {
        1 + place(entries.drop_first(), name)
    }
}

/// The value under `name`.
pub open spec fn value_at<V>(entries: Seq<(String, V)>, name: Seq<char>) -> Option<V> {
    if has_name(entries, name) {
        Some(entries[place(entries, name)].1)
    } else {
        None
    }
}

pub(crate) proof fn place_is_the_first<V>(entries: Seq<(String, V)>, name: Seq<char>)
    ensures
        0 <= place(entries, name) <= entries.len(),
        has_name(entries, name) <==> place(entries, name) < entries.len(),
        has_name(entries, name) ==> entries[place(entries, name)].0@ == name,
        forall|i: int| 0 <= i < place(entries, name) ==> (#[trigger] entries[i]).0@ != name,
    decreases entries.len(),
{
    if entries.len() > 0 && entries[0].0@ != name {
        let rest = entries.drop_first();
        place_is_the_first(rest, name);
        let at = place(entries, name);
        assert forall|i: int| 0 <= i < at implies (#[trigger] entries[i]).0@ != name by {
            if i > 0 {
                assert(rest[i - 1] == entries[i]);
            }
        }
        if has_name(entries, name) {
            let i = choose|i: int| 0 <= i < entries.len() && (#[trigger] entries[i]).0@ == name;
            assert(rest[i - 1] == entries[i]);
            assert(has_name(rest, name));
        }
        if has_name(rest, name) {
            assert(rest[at - 1] == entries[at]);
        }
    }
}

/// What an entry added at the end changes: the value under its own name, and that
/// only when nothing was there.
pub(crate) proof fn value_after_push<V>(
    entries: Seq<(String, V)>,
    entry: (String, V),
    name: Seq<char>,
)
    ensures
        has_name(entries.push(entry), name) == (has_name(entries, name) || entry.0@ == name),
        value_at(entries.push(entry), name) == if has_name(entries, name) {
            value_at(entries, name)
        } else if entry.0@ == name {
            Some(entry.1)
        } else {
            None
        },
{
    let longer = entries.push(entry);
    place_is_the_first(entries, name);
    place_is_the_first(longer, name);
    if has_name(entries, name) {
        let at = place(entries, name);
        assert(longer[at] == entries[at]);
        assert(has_name(longer, name));
        let first = place(longer, name);
        if first < at {
            assert(longer[first] == entries[first]);
        }
    } else if entry.0@ == name {
        assert(longer[entries.len() as int].0@ == name);
        let first = place(longer, name);
        if first < entries.len() {
            assert(longer[first] == entries[first]);
        }
    } else if has_name(longer, name) {
        let i = choose|i: int| 0 <= i < longer.len() && (#[trigger] longer[i]).0@ == name;
        assert(longer[i] == entries[i]);
    }
}

/// Where the first entry called `name` is, if one is.
pub fn find<V>(entries: &Vec<(String, V)>, name: &str) -> (found: Option<usize>)
    ensures
        found == if has_name(entries@, name@) {
            Some(place(entries@, name@) as usize)
        } else {
            None
        },
        found matches Some(at) ==> at < entries@.len() && entries@[at as int].0@ == name@ && at
            == place(entries@, name@),
{
    let mut at: usize = 0;
    while at < entries.len()
        invariant
            at <= entries@.len(),
            forall|i: int| 0 <= i < at ==> (#[trigger] entries@[i]).0@ != name@,
        decreases entries@.len() - at,
    {
        if same(entries[at].0.as_str(), name) {
            proof {
                place_is_the_first(entries@, name@);
                let first = place(entries@, name@);
                assert(entries@[at as int].0@ == name@);
                assert(first == at);
            }
            return Some(at);
        }
        at = at + 1;
    }
    None
}

/// The value under `name`, if there is one.
pub fn get<'a, V>(entries: &'a Vec<(String, V)>, name: &str) -> (found: Option<&'a V>)
    ensures
        found == match value_at(entries@, name@) {
            Some(value) => Some(&value),
            None => None,
        },
{
    match find(entries, name) {
        Some(at) => Some(&entries[at].1),
        None => None,
    }
}

/// Keep `value` under `name`, in place of whatever was there.
pub fn put<V>(entries: &mut Vec<(String, V)>, name: String, value: V)
    requires
        ordered(old(entries)@),
    ensures
        ordered(final(entries)@),
        value_at(final(entries)@, name@) == Some(value),
        forall|other: Seq<char>|
            other != name@ ==> value_at(final(entries)@, other) == value_at(old(entries)@, other),
        final(entries)@.len() == old(entries)@.len() + if has_name(old(entries)@, name@) {
            0int
        } else {
            1
        },
{
    let ghost was = entries@;
    let ghost called = name@;
    let mut at: usize = 0;
    while at < entries.len() && is_before(entries[at].0.as_str(), name.as_str())
        invariant
            at <= entries@.len(),
            entries@ == was,
            name@ == called,
            forall|i: int| 0 <= i < at ==> before((#[trigger] was[i]).0@, called),
        decreases entries@.len() - at,
    {
        at = at + 1;
    }
    let ghost key = name;
    if at < entries.len() && same(entries[at].0.as_str(), name.as_str()) {
        entries.set(at, (name, value));
        proof {
            let now = entries@;
            assert(has_name(was, called)) by {
                assert(was[at as int].0@ == called);
            }
            assert forall|i: int, j: int| 0 <= i < j < now.len() implies before(
                (#[trigger] now[i]).0@,
                (#[trigger] now[j]).0@,
            ) by {
                assert(before(was[i].0@, was[j].0@));
            }
            put_keeps_the_rest(was, now, at as int, called, value, false);
        }
    } else {
        entries.insert(at, (name, value));
        proof {
            let now = entries@;
            assert forall|i: int| at <= i < was.len() implies before(called, (#[trigger] was[i]).0@) by {
                order_is_total(was[at as int].0@, called);
                if i > at {
                    assert(before(was[at as int].0@, was[i].0@));
                    order_is_transitive(called, was[at as int].0@, was[i].0@);
                }
            }
            assert(!has_name(was, called)) by {
                assert forall|i: int| 0 <= i < was.len() implies (#[trigger] was[i]).0@ != called by {
                    order_is_total(was[i].0@, called);
                    order_is_total(called, was[i].0@);
                }
            }
            assert forall|i: int, j: int| 0 <= i < j < now.len() implies before(
                (#[trigger] now[i]).0@,
                (#[trigger] now[j]).0@,
            ) by {
                if i < at && j < at {
                    assert(before(was[i].0@, was[j].0@));
                } else if i < at && j > at {
                    assert(now[j] == was[j - 1]);
                    assert(before(was[i].0@, was[j - 1].0@));
                } else if i >= at {
                    assert(now[j] == was[j - 1]);
                    if i > at {
                        assert(now[i] == was[i - 1]);
                        assert(before(was[i - 1].0@, was[j - 1].0@));
                    }
                }
            }
            put_keeps_the_rest(was, now, at as int, called, value, true);
        }
    }
}

proof fn put_keeps_the_rest<V>(
    was: Seq<(String, V)>,
    now: Seq<(String, V)>,
    at: int,
    called: Seq<char>,
    value: V,
    inserted: bool,
)
    requires
        0 <= at < now.len(),
        now[at].0@ == called,
        now[at].1 == value,
        inserted ==> now.len() == was.len() + 1 && (forall|i: int|
            0 <= i < at ==> #[trigger] now[i] == was[i]) && (forall|i: int|
            at < i < now.len() ==> #[trigger] now[i] == was[i - 1]),
        !inserted ==> now.len() == was.len() && was[at].0@ == called && (forall|i: int|
            0 <= i < now.len() && i != at ==> #[trigger] now[i] == was[i]),
        ordered(now),
        ordered(was),
    ensures
        value_at(now, called) == Some(value),
        forall|other: Seq<char>| other != called ==> value_at(now, other) == value_at(was, other),
{
    one_name_one_place(now, called, at);
    assert forall|other: Seq<char>| other != called implies value_at(now, other) == value_at(
        was,
        other,
    ) by {
        if has_name(now, other) {
            let i = choose|i: int| 0 <= i < now.len() && (#[trigger] now[i]).0@ == other;
            let j = if inserted && i > at {
                i - 1
            } else {
                i
            };
            assert(now[i] == was[j]);
            one_name_one_place(now, other, i);
            one_name_one_place(was, other, j);
        }
        if has_name(was, other) {
            let j = choose|j: int| 0 <= j < was.len() && (#[trigger] was[j]).0@ == other;
            let i = if inserted && j >= at {
                j + 1
            } else {
                j
            };
            assert(now[i] == was[j]);
        }
    }
}

proof fn one_name_one_place<V>(entries: Seq<(String, V)>, name: Seq<char>, at: int)
    requires
        ordered(entries),
        0 <= at < entries.len(),
        entries[at].0@ == name,
    ensures
        has_name(entries, name),
        place(entries, name) == at,
{
    place_is_the_first(entries, name);
    let first = place(entries, name);
    if first < at {
        order_is_total(entries[first].0@, entries[at].0@);
    }
}

} // verus!
