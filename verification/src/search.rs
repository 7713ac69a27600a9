//! Looking for one text inside another, and reading numbers off a text.

use vstd::prelude::*;

use crate::task::{begins, holds_at};
use crate::text::{characters, spelled, texts_of};

verus! {

/// Where `pattern` first stands in `text`, or -1 where it does not.
pub open spec fn first_at(text: Seq<char>, pattern: Seq<char>) -> int
    decreases text.len(),
{
    if begins(text, pattern) {
        0
    } else if text.len() == 0 {
        -1
    } else {
        let later = first_at(text.drop_first(), pattern);
        if later < 0 {
            -1
        } else {
            later + 1
        }
    }
}

/// Whether `pattern` stands anywhere in `text`.
pub open spec fn holds(text: Seq<char>, pattern: Seq<char>) -> bool {
    first_at(text, pattern) >= 0
}

/// The place a search finds is one where the pattern stands, no earlier place is,
/// and a search that finds none leaves none.
pub proof fn a_search_finds_the_first_place(text: Seq<char>, pattern: Seq<char>)
    ensures
        first_at(text, pattern) < 0 ==> forall|i: int|
            0 <= i <= text.len() ==> !begins(#[trigger] text.skip(i), pattern),
        first_at(text, pattern) >= 0 ==> {
            let at = first_at(text, pattern);
            &&& at + pattern.len() <= text.len()
            &&& begins(text.skip(at), pattern)
            &&& forall|i: int| 0 <= i < at ==> !begins(#[trigger] text.skip(i), pattern)
        },
    decreases text.len(),
{
    assert(text.skip(0) =~= text);
    if begins(text, pattern) {
    } else if text.len() == 0 {
        assert forall|i: int| 0 <= i <= text.len() implies !begins(
            #[trigger] text.skip(i),
            pattern,
        ) by {
            assert(text.skip(i) =~= text);
        }
    } else {
        let rest = text.drop_first();
        a_search_finds_the_first_place(rest, pattern);
        let at = first_at(text, pattern);
        assert forall|i: int| 0 <= i <= text.len() && (at < 0 || i < at) implies !begins(
            #[trigger] text.skip(i),
            pattern,
        ) by {
            if i == 0 {
                assert(text.skip(i) =~= text);
            } else {
                assert(text.skip(i) =~= rest.skip(i - 1));
            }
        }
        if at >= 0 {
            assert(text.skip(at) =~= rest.skip(at - 1));
        }
    }
}

/// Where `pattern` first stands among `all` from `from` on.
pub(crate) fn find_from(all: &Vec<char>, from: usize, pattern: &Vec<char>) -> (found: Option<usize>)
    requires
        from <= all@.len(),
    ensures
        match found {
            Some(at) => from <= at && at + pattern@.len() <= all@.len() && at - from == first_at(
                all@.skip(from as int),
                pattern@,
            ),
            None => first_at(all@.skip(from as int), pattern@) < 0,
        },
{
    let mut at: usize = from;
    let ghost whole = all@.skip(from as int);
    assert(whole.skip(0) =~= whole);
    while at < all.len()
        invariant
            from <= at <= all@.len(),
            whole == all@.skip(from as int),
            ({
                let later = first_at(whole.skip(at - from), pattern@);
                first_at(whole, pattern@) == if later < 0 {
                    -1
                } else {
                    later + (at - from)
                }
            }),
        decreases all@.len() - at,
    {
        assert(whole.skip(at - from) =~= all@.skip(at as int));
        if holds_at(all, at, pattern) {
            return Some(at);
        }
        assert(whole.skip(at - from).drop_first() =~= whole.skip(at - from + 1));
        at = at + 1;
    }
    assert(whole.skip(at - from) =~= all@.skip(at as int));
    assert(all@.skip(at as int) =~= seq![]);
    if holds_at(all, at, pattern) {
        return Some(at);
    }
    None
}

/// Whether `pattern` stands anywhere in `text`.
pub fn contains(text: &str, pattern: &str) -> (found: bool)
    ensures
        found == holds(text@, pattern@),
{
    let all = characters(text);
    let wanted = characters(pattern);
    assert(all@.skip(0) =~= all@);
    find_from(&all, 0, &wanted).is_some()
}

/// The pieces of a text between one place a separator stands and the next.
pub open spec fn pieces(text: Seq<char>, separator: Seq<char>) -> Seq<Seq<char>>
    decreases text.len(),
    when separator.len() > 0
    via pieces_shrink
{
    let at = first_at(text, separator);
    if at < 0 {
        seq![text]
    } else {
        seq![text.take(at)] + pieces(text.skip(at + separator.len()), separator)
    }
}

#[via_fn]
proof fn pieces_shrink(text: Seq<char>, separator: Seq<char>) {
    a_search_finds_the_first_place(text, separator);
}

/// The pieces of a text between one place a separator stands and the next.
pub fn split(text: &str, separator: &str) -> (parts: Vec<String>)
    requires
        separator@.len() > 0,
    ensures
        texts_of(parts@) == pieces(text@, separator@),
{
    let all = characters(text);
    let wanted = characters(separator);
    let mut parts: Vec<String> = Vec::new();
    let total: usize = all.len();
    let mut from: usize = 0;
    assert(all@.skip(0) =~= all@);
    assert(texts_of(parts@) + pieces(text@, separator@) =~= pieces(text@, separator@));
    loop
        invariant
            all@ == text@,
            wanted@ == separator@,
            separator@.len() > 0,
            total == all@.len(),
            from <= all@.len(),
            texts_of(parts@) + pieces(all@.skip(from as int), separator@) == pieces(
                text@,
                separator@,
            ),
        decreases all@.len() - from,
    {
        let ghost held = texts_of(parts@);
        let ghost rest = all@.skip(from as int);
        match find_from(&all, from, &wanted) {
            None => {
                let last = spelled(&all, from, total);
                assert(last@ =~= rest);
                parts.push(last);
                assert(texts_of(parts@) =~= held + seq![rest]);
                return parts;
            },
            Some(at) => {
                proof {
                    a_search_finds_the_first_place(rest, separator@);
                }
                let part = spelled(&all, from, at);
                let ghost piece = part@;
                assert(piece =~= rest.take(at - from));
                parts.push(part);
                assert(texts_of(parts@) =~= held.push(piece));
                let next: usize = at + wanted.len();
                assert(rest.skip(at - from + separator@.len()) =~= all@.skip(next as int));
                assert(texts_of(parts@) + pieces(all@.skip(next as int), separator@) =~= held
                    + pieces(rest, separator@));
                from = next;
            },
        }
    }
}

/// The number a decimal digit stands for, or -1 for any other character.
pub open spec fn digit_value(character: char) -> int {
    if '0' <= character <= '9' {
        character as int - '0' as int
    } else {
        -1
    }
}

/// The number a run of decimal digits stands for.
pub open spec fn digits_value(text: Seq<char>) -> int
    decreases text.len(),
{
    if text.len() == 0 {
        0
    } else {
        10 * digits_value(text.drop_last()) + digit_value(text.last())
    }
}

/// Whether a text is one or more decimal digits.
pub open spec fn all_digits(text: Seq<char>) -> bool {
    text.len() > 0 && forall|i: int| 0 <= i < text.len() ==> digit_value(#[trigger] text[i]) >= 0
}

/// The whole number a text writes, if it writes one: digits, with at most one sign
/// in front.
pub open spec fn integer_of(text: Seq<char>) -> Option<int> {
    if all_digits(text) {
        Some(digits_value(text))
    } else if text.len() > 0 && all_digits(text.drop_first()) && text[0] == '+' {
        Some(digits_value(text.drop_first()))
    } else if text.len() > 0 && all_digits(text.drop_first()) && text[0] == '-' {
        Some(-digits_value(text.drop_first()))
    } else {
        None
    }
}

/// What a run of digits comes to: the number, or a number beyond `u64`, or none.
enum Digits {
    /// Not digits alone.
    Not,
    /// A number.
    Number(u64),
    /// A number that is larger than a `u64` holds.
    Beyond,
}

proof fn a_longer_number_is_no_smaller(text: Seq<char>, upto: int)
    requires
        0 <= upto <= text.len(),
        forall|i: int| 0 <= i < text.len() ==> digit_value(#[trigger] text[i]) >= 0,
    ensures
        0 <= digits_value(text.take(upto)) <= digits_value(text),
    decreases text.len() - upto,
{
    if upto < text.len() {
        a_longer_number_is_no_smaller(text, upto + 1);
        assert(text.take(upto + 1).drop_last() =~= text.take(upto));
        digits_are_not_negative(text.take(upto));
    } else {
        assert(text.take(upto) =~= text);
        digits_are_not_negative(text);
    }
}

proof fn digits_are_not_negative(text: Seq<char>)
    requires
        forall|i: int| 0 <= i < text.len() ==> digit_value(#[trigger] text[i]) >= 0,
    ensures
        digits_value(text) >= 0,
    decreases text.len(),
{
    if text.len() > 0 {
        assert forall|i: int| 0 <= i < text.drop_last().len() implies digit_value(
            #[trigger] text.drop_last()[i],
        ) >= 0 by {
            assert(digit_value(text[i]) >= 0);
        }
        digits_are_not_negative(text.drop_last());
    }
}

fn read_digits(all: &Vec<char>, from: usize) -> (read: Digits)
    requires
        from <= all@.len(),
    ensures
        match read {
            Digits::Not => !all_digits(all@.skip(from as int)),
            Digits::Number(value) => all_digits(all@.skip(from as int)) && value == digits_value(
                all@.skip(from as int),
            ),
            Digits::Beyond => all_digits(all@.skip(from as int)) && digits_value(
                all@.skip(from as int),
            ) > u64::MAX,
        },
{
    let ghost text = all@.skip(from as int);
    if from == all.len() {
        return Digits::Not;
    }
    let mut at: usize = from;
    while at < all.len()
        invariant
            from <= at <= all@.len(),
            text == all@.skip(from as int),
            forall|i: int| 0 <= i < at - from ==> digit_value(#[trigger] text[i]) >= 0,
        decreases all@.len() - at,
    {
        let character = all[at];
        assert(text[at - from] == character);
        if !('0' <= character && character <= '9') {
            return Digits::Not;
        }
        at = at + 1;
    }
    let mut value: u64 = 0;
    at = from;
    assert(text.take(0) =~= seq![]);
    while at < all.len()
        invariant
            from <= at <= all@.len(),
            text == all@.skip(from as int),
            all_digits(text),
            value == digits_value(text.take(at - from)),
        decreases all@.len() - at,
    {
        let character = all[at];
        assert(text[at - from] == character);
        let digit: u64 = (character as u32 - '0' as u32) as u64;
        proof {
            assert(text.take(at - from + 1).drop_last() =~= text.take(at - from));
            a_longer_number_is_no_smaller(text, at - from + 1);
        }
        match value.checked_mul(10) {
            None => {
                return Digits::Beyond;
            },
            Some(tens) => match tens.checked_add(digit) {
                None => {
                    return Digits::Beyond;
                },
                Some(longer) => {
                    value = longer;
                },
            },
        }
        at = at + 1;
    }
    assert(text.take(at - from) =~= text);
    Digits::Number(value)
}

/// The exit code a text writes, if it writes one.
pub fn read_code(text: &str) -> (code: Option<i32>)
    ensures
        match integer_of(text@) {
            Some(value) => if i32::MIN <= value <= i32::MAX {
                code == Some(value as i32)
            } else {
                code is None
            },
            None => code is None,
        },
{
    let all = characters(text);
    let signed = all.len() > 0 && (all[0] == '+' || all[0] == '-');
    let negative = all.len() > 0 && all[0] == '-';
    let from: usize = if signed {
        1
    } else {
        0
    };
    proof {
        assert(all@.skip(0) =~= all@);
        if all@.len() > 0 {
            assert(all@.skip(1) =~= all@.drop_first());
            if signed {
                assert(digit_value(all@[0]) < 0);
            } else if all_digits(text@) {
                assert(digit_value(text@[0]) >= 0);
            }
        }
    }
    match read_digits(&all, from) {
        Digits::Number(value) => {
            if negative {
                if value == 2147483648 {
                    Some(i32::MIN)
                } else if value < 2147483648 {
                    Some(-(value as i32))
                } else {
                    None
                }
            } else if value <= 2147483647 {
                Some(value as i32)
            } else {
                None
            }
        },
        _ => None,
    }
}

/// The count a text writes, if it writes one: no sign but a plus.
pub fn read_count(text: &str) -> (count: Option<usize>)
    ensures
        match count {
            Some(count) => integer_of(text@) == Some(count as int) && text@[0] != '-',
            None => integer_of(text@) matches Some(value) ==> text@[0] == '-' || value
                > usize::MAX,
        },
{
    let all = characters(text);
    if all.len() > 0 && all[0] == '-' {
        assert(digit_value(all@[0]) < 0);
        return None;
    }
    let from: usize = if all.len() > 0 && all[0] == '+' {
        1
    } else {
        0
    };
    proof {
        assert(all@.skip(0) =~= all@);
        if all@.len() > 0 {
            assert(all@.skip(1) =~= all@.drop_first());
            if from == 1 {
                assert(digit_value(all@[0]) < 0);
            }
        }
        if all_digits(all@.skip(from as int)) {
            digits_are_not_negative(all@.skip(from as int));
        }
    }
    match read_digits(&all, from) {
        Digits::Number(value) => {
            if value <= usize::MAX as u64 {
                Some(value as usize)
            } else {
                None
            }
        },
        _ => None,
    }
}

} // verus!
