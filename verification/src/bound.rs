//! The bounds a payload's text is held to.
//!
//! There is one byte bound, and which end a field keeps is a property of the
//! field: what names a failure is the last of a harness's output, and what an
//! operator opens a turn to read is how it begins.

use vstd::prelude::*;
use vstd::utf8::{encode_scalar, encode_utf8};

use crate::text::{characters, collapse, separated, spelled, white_space, words};

verus! {

/// The byte bound on a payload text field, past which it is cut and the payload
/// says so.
pub const MAX_PAYLOAD_TEXT_BYTES: usize = 4096;

/// The character bound on a tool summary.
pub const MAX_ACTIVITY_DETAIL_CHARS: usize = 160;

/// The bytes a text takes in UTF-8.
pub open spec fn bytes_of(text: Seq<char>) -> nat {
    encode_utf8(text).len()
}

/// The longest end of `text` that takes no more than `bound` bytes: characters
/// are dropped from the front until it fits.
pub open spec fn tail(text: Seq<char>, bound: nat) -> Seq<char>
    decreases text.len(),
{
    if text.len() == 0 || bytes_of(text) <= bound {
        text
    } else {
        tail(text.drop_first(), bound)
    }
}

/// The longest beginning of `text` that takes no more than `bound` bytes.
pub open spec fn head(text: Seq<char>, bound: nat) -> Seq<char>
    decreases text.len(),
{
    if text.len() == 0 || bytes_of(text) <= bound {
        text
    } else {
        head(text.drop_last(), bound)
    }
}

fn width(character: char) -> (bytes: usize)
    ensures
        bytes == encode_scalar(character as u32).len(),
        1 <= bytes <= 4,
{
    let code: u32 = character as u32;
    if code <= 0x7f {
        1
    } else if code <= 0x7ff {
        2
    } else if code <= 0xffff {
        3
    } else {
        4
    }
}

proof fn bytes_from_the_front(text: Seq<char>)
    requires
        text.len() > 0,
    ensures
        bytes_of(text) == encode_scalar(text[0] as u32).len() + bytes_of(text.drop_first()),
        1 <= encode_scalar(text[0] as u32).len() <= 4,
{
}

proof fn bytes_from_the_back(text: Seq<char>)
    requires
        text.len() > 0,
    ensures
        bytes_of(text) == bytes_of(text.drop_last()) + encode_scalar(text.last() as u32).len(),
        1 <= encode_scalar(text.last() as u32).len() <= 4,
    decreases text.len(),
{
    if text.len() > 1 {
        bytes_from_the_back(text.drop_first());
        assert(text.drop_first().drop_last() =~= text.drop_last().drop_first());
        assert(text.drop_first().last() == text.last());
        bytes_from_the_front(text.drop_last());
        assert(text.drop_last()[0] == text[0]);
    } else {
        assert(text.drop_last() =~= seq![]);
        assert(text.drop_first() =~= seq![]);
        assert(bytes_of(seq![]) == 0);
    }
}

pub(crate) proof fn a_text_has_no_fewer_bytes_than_characters(text: Seq<char>)
    ensures
        text.len() <= bytes_of(text) <= 4 * text.len(),
    decreases text.len(),
{
    if text.len() > 0 {
        a_text_has_no_fewer_bytes_than_characters(text.drop_first());
    }
}

/// Bound one payload text field to [`MAX_PAYLOAD_TEXT_BYTES`], keeping its tail
/// and reporting whether it had to be cut.
pub fn bound_text(text: &str) -> (bounded: (String, bool))
    ensures
        bounded.0@ == tail(text@, MAX_PAYLOAD_TEXT_BYTES as nat),
        bounded.1 == (bytes_of(text@) > MAX_PAYLOAD_TEXT_BYTES),
{
    let all = characters(text);
    let mut bytes: usize = text.as_bytes().len();
    let cut = bytes > MAX_PAYLOAD_TEXT_BYTES;
    let length: usize = all.len();
    let mut start: usize = 0;
    assert(all@.skip(0) =~= all@);
    while bytes > MAX_PAYLOAD_TEXT_BYTES
        invariant
            all@ == text@,
            length == all@.len(),
            start <= length,
            bytes == bytes_of(all@.skip(start as int)),
            tail(text@, MAX_PAYLOAD_TEXT_BYTES as nat) == tail(
                all@.skip(start as int),
                MAX_PAYLOAD_TEXT_BYTES as nat,
            ),
        decreases all@.len() - start,
    {
        let ghost rest = all@.skip(start as int);
        proof {
            a_text_has_no_fewer_bytes_than_characters(rest);
            bytes_from_the_front(rest);
            assert(rest.drop_first() =~= all@.skip(start + 1));
        }
        bytes = bytes - width(all[start]);
        start = start + 1;
    }
    let kept = spelled(&all, start, length);
    assert(kept@ =~= all@.skip(start as int));
    (kept, cut)
}

/// Bound one payload text field to [`MAX_PAYLOAD_TEXT_BYTES`], keeping its head
/// and reporting whether it had to be cut.
pub fn bound_head(text: &str) -> (bounded: (String, bool))
    ensures
        bounded.0@ == head(text@, MAX_PAYLOAD_TEXT_BYTES as nat),
        bounded.1 == (bytes_of(text@) > MAX_PAYLOAD_TEXT_BYTES),
{
    let all = characters(text);
    let mut bytes: usize = text.as_bytes().len();
    let cut = bytes > MAX_PAYLOAD_TEXT_BYTES;
    let mut end: usize = all.len();
    assert(all@.take(end as int) =~= all@);
    while bytes > MAX_PAYLOAD_TEXT_BYTES
        invariant
            all@ == text@,
            end <= all@.len(),
            bytes == bytes_of(all@.take(end as int)),
            head(text@, MAX_PAYLOAD_TEXT_BYTES as nat) == head(
                all@.take(end as int),
                MAX_PAYLOAD_TEXT_BYTES as nat,
            ),
        decreases end,
    {
        let ghost rest = all@.take(end as int);
        proof {
            a_text_has_no_fewer_bytes_than_characters(rest);
            bytes_from_the_back(rest);
            assert(rest.drop_last() =~= all@.take(end - 1));
        }
        bytes = bytes - width(all[end - 1]);
        end = end - 1;
    }
    let kept = spelled(&all, 0, end);
    assert(kept@ =~= all@.take(end as int));
    (kept, cut)
}

/// What a tool summary reads as: its words with one space between them, and no
/// more than [`MAX_ACTIVITY_DETAIL_CHARS`] characters of that.
pub open spec fn detail_of(detail: Seq<char>) -> Seq<char> {
    let collapsed = separated(words(detail), seq![' ']);
    if collapsed.len() <= MAX_ACTIVITY_DETAIL_CHARS {
        collapsed
    } else {
        collapsed.take(MAX_ACTIVITY_DETAIL_CHARS as int)
    }
}

/// Bound one tool summary to [`MAX_ACTIVITY_DETAIL_CHARS`], reporting whether it
/// had to be cut.
///
/// Characters, not bytes: a tool summary is prose a person reads.
pub fn bound_detail(detail: &str) -> (bounded: (String, bool))
    ensures
        bounded.0@ == detail_of(detail@),
        bounded.1 == (separated(words(detail@), seq![' ']).len() > MAX_ACTIVITY_DETAIL_CHARS),
{
    let collapsed = collapse(detail);
    let all = characters(collapsed.as_str());
    if all.len() <= MAX_ACTIVITY_DETAIL_CHARS {
        return (collapsed, false);
    }
    let kept = spelled(&all, 0, MAX_ACTIVITY_DETAIL_CHARS);
    assert(kept@ =~= all@.take(MAX_ACTIVITY_DETAIL_CHARS as int));
    (kept, true)
}

/// A bounded tail fits its bound, ends as the text ends, and was cut only as far
/// as it had to be: a whole character less would not have fitted.
pub proof fn a_tail_is_the_longest_end_that_fits(text: Seq<char>, bound: nat)
    ensures
        bytes_of(tail(text, bound)) <= bound,
        tail(text, bound).len() <= text.len(),
        tail(text, bound) == text.skip(text.len() - tail(text, bound).len()),
        bytes_of(text) <= bound ==> tail(text, bound) == text,
        bytes_of(text) > bound ==> bytes_of(tail(text, bound)) + 4 > bound,
        bytes_of(text) > bound ==> tail(text, bound).len() < text.len(),
        tail(tail(text, bound), bound) == tail(text, bound),
    decreases text.len(),
{
    assert(bytes_of(seq![]) == 0);
    if text.len() == 0 {
        assert(text =~= seq![]);
    }
    if text.len() > 0 && bytes_of(text) > bound {
        bytes_from_the_front(text);
        a_tail_is_the_longest_end_that_fits(text.drop_first(), bound);
        let kept = tail(text, bound);
        assert(text.drop_first().skip(text.len() - 1 - kept.len()) =~= text.skip(
            text.len() - kept.len(),
        ));
    } else {
        assert(text.skip(0) =~= text);
    }
}

/// A bounded head fits its bound, begins as the text begins, and was cut only as
/// far as it had to be.
pub proof fn a_head_is_the_longest_beginning_that_fits(text: Seq<char>, bound: nat)
    ensures
        bytes_of(head(text, bound)) <= bound,
        head(text, bound).len() <= text.len(),
        head(text, bound) == text.take(head(text, bound).len() as int),
        bytes_of(text) <= bound ==> head(text, bound) == text,
        bytes_of(text) > bound ==> bytes_of(head(text, bound)) + 4 > bound,
        bytes_of(text) > bound ==> head(text, bound).len() < text.len(),
        head(head(text, bound), bound) == head(text, bound),
    decreases text.len(),
{
    assert(bytes_of(seq![]) == 0);
    if text.len() == 0 {
        assert(text =~= seq![]);
    }
    if text.len() > 0 && bytes_of(text) > bound {
        bytes_from_the_back(text);
        a_head_is_the_longest_beginning_that_fits(text.drop_last(), bound);
        let kept = head(text, bound);
        assert(text.drop_last().take(kept.len() as int) =~= text.take(kept.len() as int));
    } else {
        assert(text.take(text.len() as int) =~= text);
    }
}

proof fn words_hold_no_white_space(text: Seq<char>)
    ensures
        forall|i: int, j: int|
            0 <= i < words(text).len() && 0 <= j < words(text)[i].len() ==> !white_space(
                #[trigger] words(text)[i][j],
            ),
        text.len() > 0 && !white_space(text.last()) ==> words(text).len() > 0,
        forall|i: int| 0 <= i < words(text).len() ==> (#[trigger] words(text)[i]).len() > 0,
    decreases text.len(),
{
    if text.len() > 0 {
        let rest = text.drop_last();
        words_hold_no_white_space(rest);
        let earlier = words(rest);
        let found = words(text);
        if !white_space(text.last()) && text.len() > 1 && !white_space(text[text.len() - 2]) {
            assert(rest.last() == text[text.len() - 2]);
            let grown = earlier.last().push(text.last());
            assert(found == earlier.drop_last().push(grown));
            assert forall|i: int, j: int| 0 <= i < found.len() && 0 <= j < found[i].len() implies
                !white_space(#[trigger] found[i][j]) by {
                if i < found.len() - 1 {
                    assert(found[i] == earlier[i]);
                } else if j < earlier.last().len() {
                    assert(found[i][j] == earlier[earlier.len() - 1][j]);
                }
            }
        } else if !white_space(text.last()) {
            assert(found == earlier.push(seq![text.last()]));
            assert forall|i: int, j: int| 0 <= i < found.len() && 0 <= j < found[i].len() implies
                !white_space(#[trigger] found[i][j]) by {
                if i < found.len() - 1 {
                    assert(found[i] == earlier[i]);
                }
            }
        }
    }
}

proof fn separating_adds_only_spaces(parts: Seq<Seq<char>>)
    requires
        forall|i: int, j: int|
            0 <= i < parts.len() && 0 <= j < parts[i].len() ==> !white_space(
                #[trigger] parts[i][j],
            ),
    ensures
        forall|i: int|
            0 <= i < separated(parts, seq![' ']).len() ==> !white_space(
                #[trigger] separated(parts, seq![' '])[i],
            ) || separated(parts, seq![' '])[i] == ' ',
    decreases parts.len(),
{
    if parts.len() > 1 {
        let front = parts.drop_last();
        assert forall|i: int, j: int| 0 <= i < front.len() && 0 <= j < front[i].len() implies
            !white_space(#[trigger] front[i][j]) by {
            assert(front[i][j] == parts[i][j]);
        }
        separating_adds_only_spaces(front);
        let whole = separated(parts, seq![' ']);
        let first = separated(front, seq![' ']);
        assert forall|i: int| 0 <= i < whole.len() implies !white_space(#[trigger] whole[i])
            || whole[i] == ' ' by {
            if i < first.len() {
                assert(whole[i] == first[i]);
            } else if i > first.len() {
                assert(whole[i] == parts[parts.len() - 1][i - first.len() - 1]);
            }
        }
    } else if parts.len() == 1 {
        let whole = separated(parts, seq![' ']);
        assert forall|i: int| 0 <= i < whole.len() implies !white_space(#[trigger] whole[i]) by {
            assert(whole[i] == parts[0][i]);
        }
    }
}

/// A bounded tool summary is one line: no more than the bound's characters, and
/// no white space in it but single-character spaces.
pub proof fn a_detail_is_one_bounded_line(detail: Seq<char>)
    ensures
        detail_of(detail).len() <= MAX_ACTIVITY_DETAIL_CHARS,
        forall|i: int|
            0 <= i < detail_of(detail).len() ==> !white_space(#[trigger] detail_of(detail)[i])
                || detail_of(detail)[i] == ' ',
{
    words_hold_no_white_space(detail);
    separating_adds_only_spaces(words(detail));
    let collapsed = separated(words(detail), seq![' ']);
    assert forall|i: int| 0 <= i < detail_of(detail).len() implies !white_space(
        #[trigger] detail_of(detail)[i],
    ) || detail_of(detail)[i] == ' ' by {
        assert(detail_of(detail)[i] == collapsed[i]);
    }
}

} // verus!
