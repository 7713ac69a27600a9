//! What the library's texts are: numbers that read back, names, and words.

use vstd::prelude::*;

use crate::bound::bound_detail;
use crate::keyed::{find, get, place_is_the_first};
use crate::text::{
    collapse, decimal, digit_of, is_blank, is_plain_name, is_white_space, join, numeral, pad,
    separated, texts_of, white_space, words, write_decimal, write_hexadecimal, write_signed,
};

verus! {

// ---- Numbers ----
/// What one digit is worth.
pub open spec fn digit_worth(character: char) -> int {
    if '0' <= character <= '9' {
        character as int - '0' as int
    } else if 'a' <= character <= 'f' {
        character as int - 'a' as int + 10
    } else {
        -1
    }
}

/// What a run of digits is worth in a base.
pub open spec fn number_worth(text: Seq<char>, base: int) -> int
    decreases text.len(),
{
    if text.len() == 0 {
        0
    } else {
        number_worth(text.drop_last(), base) * base + digit_worth(text.last())
    }
}

/// Whether a text is a number in a base, written the one way it can be: digits of the
/// base, and no zero in front of another digit.
pub open spec fn writes(text: Seq<char>, base: int, value: int) -> bool {
    &&& text.len() > 0
    &&& forall|i: int| 0 <= i < text.len() ==> 0 <= digit_worth(#[trigger] text[i]) < base
    &&& text.len() > 1 ==> text[0] != '0'
    &&& number_worth(text, base) == value
}

proof fn a_digit_is_worth_itself(digit: nat)
    requires
        digit < 16,
    ensures
        digit_worth(digit_of(digit)) == digit,
        digit > 0 ==> digit_of(digit) != '0',
{
    if digit < 10 {
        assert(((48 + digit) as char) as int == 48 + digit);
    } else {
        assert(((87 + digit) as char) as int == 87 + digit);
    }
}

pub(crate) proof fn a_numeral_reads_back(value: nat, base: nat)
    requires
        2 <= base <= 16,
    ensures
        writes(numeral(value, base), base as int, value as int),
        value > 0 ==> numeral(value, base)[0] != '0',
    decreases value,
{
    let text = numeral(value, base);
    if value < base {
        a_digit_is_worth_itself(value);
        assert(text =~= seq![digit_of(value)]);
        assert(text.drop_last() =~= seq![]);
        assert(number_worth(text.drop_last(), base as int) == 0);
        assert(number_worth(text, base as int) == 0 * (base as int) + value);
    } else {
        let most = value / base;
        let least = value % base;
        assert(0 < most < value && least < base && value == most * base + least)
            by (nonlinear_arith)
            requires
                base >= 2,
                value >= base,
                most == value / base,
                least == value % base,
        ;
        a_numeral_reads_back(most, base);
        a_digit_is_worth_itself(least);
        let front = numeral(most, base);
        assert(text == front.push(digit_of(least)));
        assert(text.drop_last() =~= front);
        assert(text.last() == digit_of(least));
        assert(text[0] == front[0]);
        assert forall|i: int| 0 <= i < text.len() implies 0 <= digit_worth(#[trigger] text[i])
            < base by {
            if i < front.len() {
                assert(text[i] == front[i]);
            }
        }
    }
}

/// A number in decimal reads back as the number, and is written the one way it can be.
pub proof fn a_decimal_reads_back(value: u64, text: String)
    requires
        call_ensures(write_decimal, (value,), text),
    ensures
        writes(text@, 10, value as int),
{
    a_numeral_reads_back(value as nat, 10);
}

/// A number in hexadecimal reads back as the number.
pub proof fn a_hexadecimal_reads_back(value: u64, text: String)
    requires
        call_ensures(write_hexadecimal, (value,), text),
    ensures
        writes(text@, 16, value as int),
{
    a_numeral_reads_back(value as nat, 16);
}

/// A negative number is written as its size after a hyphen, and any other as its size.
pub proof fn a_signed_number_reads_back(value: i32, text: String)
    requires
        call_ensures(write_signed, (value,), text),
    ensures
        value >= 0 ==> writes(text@, 10, value as int),
        value < 0 ==> text@.len() > 0 && text@[0] == '-' && writes(
            text@.drop_first(),
            10,
            -value as int,
        ),
{
    if value >= 0 {
        a_numeral_reads_back(value as nat, 10);
    } else {
        a_numeral_reads_back((-value) as nat, 10);
        assert(text@.drop_first() =~= decimal((-value) as nat));
    }
}

/// A padded text is the text with zeros before it, as long as it was asked to be and no
/// longer than it has to be.
pub proof fn a_padded_text_ends_as_it_did(text: &str, width: usize, padded: String)
    requires
        call_ensures(pad, (text, width), padded),
    ensures
        padded@.len() == if text@.len() < width {
            width as nat
        } else {
            text@.len()
        },
        padded@.skip(padded@.len() - text@.len()) == text@,
        forall|i: int| 0 <= i < padded@.len() - text@.len() ==> #[trigger] padded@[i] == '0',
{
    assert(padded@.skip(padded@.len() - text@.len()) =~= text@);
}

// ---- Names and white space ----
/// A plain name is one or more letters, digits, hyphens and underscores.
pub proof fn a_plain_name_is_made_of_plain_characters(name: &str, found: bool)
    requires
        call_ensures(is_plain_name, (name,), found),
    ensures
        found <==> name@.len() > 0 && forall|i: int|
            0 <= i < name@.len() ==> ('0' <= #[trigger] name@[i] <= '9' || 'A' <= name@[i] <= 'Z'
                || 'a' <= name@[i] <= 'z' || name@[i] == '-' || name@[i] == '_'),
{
    if found {
        assert forall|i: int| 0 <= i < name@.len() implies ('0' <= #[trigger] name@[i] <= '9' || 'A'
            <= name@[i] <= 'Z' || 'a' <= name@[i] <= 'z' || name@[i] == '-' || name@[i] == '_') by {
            assert(crate::text::alphanumeric(name@[i]) || name@[i] == '-' || name@[i] == '_');
        }
    } else if name@.len() > 0 {
        let i = choose|i: int|
            0 <= i < name@.len() && !(crate::text::alphanumeric(#[trigger] name@[i]) || name@[i]
                == '-' || name@[i] == '_');
        assert(0 <= i < name@.len() && !(crate::text::alphanumeric(name@[i])));
    }
}

/// Of the ASCII characters exactly the tab, the line feed, the vertical tab, the form
/// feed, the carriage return and the space are white space; nothing beyond the ideographic
/// space is.
pub proof fn ascii_has_six_characters_of_white_space(character: char, found: bool)
    requires
        call_ensures(is_white_space, (character,), found),
    ensures
        character as u32 <= 0x7f ==> (found <==> character == '\t' || character == '\n' || character
            == ' ' || character == '\r' || character as u32 == 0x0b || character as u32 == 0x0c),
        character as u32 > 0x3000 ==> !found,
        character as u32 == 0x3000 || character as u32 == 0xa0 || character as u32 == 0x2028
            || character as u32 == 0x2029 ==> found,
{
    assert(('\t' as u32) == 9 && ('\n' as u32) == 10 && ('\r' as u32) == 13 && (' ' as u32) == 32);
    vstd::utf8::char_u32_cast(character, character as u32);
    vstd::utf8::char_u32_cast('\t', 9);
    vstd::utf8::char_u32_cast('\n', 10);
    vstd::utf8::char_u32_cast('\r', 13);
    vstd::utf8::char_u32_cast(' ', 32);
}

/// A text is blank exactly where nothing is left of it without its white space.
pub proof fn a_blank_text_has_nothing_but_white_space(text: &str, found: bool, at: int)
    requires
        call_ensures(is_blank, (text,), found),
    ensures
        text@.len() == 0 ==> found,
        0 <= at < text@.len() && !white_space(text@[at]) ==> !found,
        (forall|i: int| 0 <= i < text@.len() ==> white_space(#[trigger] text@[i])) ==> found,
{
}

// ---- Words ----
/// Whether a text is one line of words: no white space but spaces, none of them at an end
/// or beside another.
pub open spec fn in_order(text: Seq<char>) -> bool {
    &&& forall|i: int|
        0 <= i < text.len() && white_space(#[trigger] text[i]) ==> text[i] == ' ' && 0 < i
            < text.len() - 1 && !white_space(text[i - 1])
}

/// A text without its white space.
pub open spec fn ink(text: Seq<char>) -> Seq<char>
    decreases text.len(),
{
    if text.len() == 0 {
        seq![]
    } else if white_space(text.last()) {
        ink(text.drop_last())
    } else {
        ink(text.drop_last()).push(text.last())
    }
}

proof fn ink_runs_on(one: Seq<char>, other: Seq<char>)
    ensures
        ink(one + other) == ink(one) + ink(other),
    decreases other.len(),
{
    let whole = one + other;
    if other.len() == 0 {
        assert(whole =~= one);
        assert(ink(whole) =~= ink(one) + ink(other));
    } else {
        ink_runs_on(one, other.drop_last());
        assert(whole.drop_last() =~= one + other.drop_last());
        assert(whole.last() == other.last());
        assert(ink(whole) =~= ink(one) + ink(other));
    }
}

proof fn a_space_is_white()
    ensures
        white_space(' '),
        ink(seq![' ']) == Seq::<char>::empty(),
{
    assert((' ' as u32) == 0x20);
    assert(seq![' '].drop_last() =~= Seq::<char>::empty());
    assert(seq![' '].last() == ' ');
    assert(ink(Seq::<char>::empty()) =~= Seq::<char>::empty());
}

proof fn collapsing_keeps_the_ink(text: Seq<char>)
    ensures
        ink(separated(words(text), seq![' '])) == ink(text),
        in_order(separated(words(text), seq![' '])),
        words(text).len() > 0 <==> separated(words(text), seq![' ']).len() > 0,
        text.len() > 0 && !white_space(text.last()) ==> words(text).len() > 0 && separated(
            words(text),
            seq![' '],
        ).last() == text.last(),
        words(text).len() > 0 ==> !white_space(separated(words(text), seq![' ']).last()),
    decreases text.len(),
{
    a_space_is_white();
    let space = seq![' '];
    if text.len() > 0 {
        let before = text.drop_last();
        collapsing_keeps_the_ink(before);
        let held = words(before);
        let line = separated(held, space);
        let last = text.last();
        if !white_space(last) {
            if text.len() == 1 || white_space(text[text.len() - 2]) {
                let all = held.push(seq![last]);
                assert(words(text) == all);
                assert(all.drop_last() =~= held);
                if held.len() == 0 {
                    let now = separated(all, space);
                    assert(now =~= seq![last]);
                    assert(line =~= seq![]);
                    assert(now =~= line.push(last));
                    assert(now.drop_last() =~= line);
                } else {
                    let now = separated(all, space);
                    assert(now =~= (line + space).push(last));
                    assert(now.drop_last() =~= line + space);
                    ink_runs_on(line, space);
                    assert(ink(line + space) =~= ink(line));
                    assert forall|i: int|
                        0 <= i < now.len() && white_space(#[trigger] now[i]) implies now[i] == ' '
                        && 0 < i < now.len() - 1 && !white_space(now[i - 1]) by {
                        if i < line.len() {
                            assert(line[i] == now[i]);
                            if i > 0 {
                                assert(line[i - 1] == now[i - 1]);
                            }
                        } else {
                            assert(i == line.len());
                            assert(now[i - 1] == line.last());
                        }
                    }
                }
            } else {
                assert(before.last() == text[text.len() - 2]);
                let all = held.drop_last().push(held.last().push(last));
                assert(words(text) == all);
                assert(all.drop_last() =~= held.drop_last());
                let now = separated(all, space);
                if held.len() == 1 {
                    assert(now =~= line.push(last));
                } else {
                    assert(now =~= line.push(last));
                }
                assert(now.drop_last() =~= line);
                assert forall|i: int|
                    0 <= i < now.len() && white_space(#[trigger] now[i]) implies now[i] == ' ' && 0
                    < i < now.len() - 1 && !white_space(now[i - 1]) by {
                    assert(line[i] == now[i]);
                    if i > 0 {
                        assert(line[i - 1] == now[i - 1]);
                    }
                }
            }
        }
    } else {
        assert(separated(words(text), space) =~= text);
    }
}

proof fn what_is_in_order_stays(text: Seq<char>)
    requires
        in_order(text),
    ensures
        separated(words(text), seq![' ']) == text,
        text.len() > 0 ==> words(text).len() > 0,
    decreases text.len(),
{
    a_space_is_white();
    let space = seq![' '];
    if text.len() == 0 {
        assert(separated(words(text), space) =~= text);
    } else {
        let last = text.last();
        assert(text[text.len() - 1] == last);
        assert(!white_space(last));
        let before = text.drop_last();
        if text.len() > 1 && white_space(text[text.len() - 2]) {
            let front = before.drop_last();
            assert(text[text.len() - 2] == ' ');
            assert(front.len() > 0);
            assert forall|i: int|
                0 <= i < front.len() && white_space(#[trigger] front[i]) implies front[i] == ' '
                && 0 < i < front.len() - 1 && !white_space(front[i - 1]) by {
                assert(text[i] == front[i]);
                assert(front[i - 1] == text[i - 1]);
                assert(!white_space(text[text.len() - 3]));
            }
            what_is_in_order_stays(front);
            assert(before.last() == text[text.len() - 2]);
            assert(words(before) == words(front));
            let all = words(front).push(seq![last]);
            assert(words(text) == all);
            assert(all.drop_last() =~= words(front));
            assert(text =~= (front + space).push(last));
            assert(separated(all, space) =~= text);
        } else if text.len() == 1 {
            assert(words(before) =~= seq![]);
            assert(words(text) =~= seq![seq![last]]);
            assert(text =~= seq![last]);
        } else {
            assert forall|i: int|
                0 <= i < before.len() && white_space(#[trigger] before[i]) implies before[i] == ' '
                && 0 < i < before.len() - 1 && !white_space(before[i - 1]) by {
                assert(text[i] == before[i]);
                assert(before[i - 1] == text[i - 1]);
            }
            what_is_in_order_stays(before);
            assert(before.last() == text[text.len() - 2]);
            let held = words(before);
            let all = held.drop_last().push(held.last().push(last));
            assert(words(text) == all);
            assert(all.drop_last() =~= held.drop_last());
            assert(separated(all, space) =~= before.push(last));
            assert(text =~= before.push(last));
        }
    }
}

/// A collapsed text is one line of words with the characters of the text in their order,
/// and a text that is one already stays as it is.
pub proof fn a_collapsed_text_is_its_words_on_one_line(text: &str, collapsed: String)
    requires
        call_ensures(collapse, (text,), collapsed),
    ensures
        in_order(collapsed@),
        ink(collapsed@) == ink(text@),
        in_order(text@) ==> collapsed@ == text@,
{
    collapsing_keeps_the_ink(text@);
    if in_order(text@) {
        what_is_in_order_stays(text@);
    }
}

/// A tool's summary is its words on one line, whole where that has up to a hundred and
/// sixty characters, and otherwise the first hundred and sixty of them.
pub proof fn a_summary_is_the_beginning_of_its_words(
    detail: &str,
    bounded: (String, bool),
    collapsed: String,
)
    requires
        call_ensures(bound_detail, (detail,), bounded),
        call_ensures(collapse, (detail,), collapsed),
    ensures
        bounded.1 <==> collapsed@.len() > 160,
        !bounded.1 ==> bounded.0@ == collapsed@,
        bounded.1 ==> bounded.0@ == collapsed@.take(160),
{
}

/// Joined texts stand in order with the separator between them: one alone is itself, and
/// one more follows a separator.
pub proof fn joined_texts_stand_in_order(
    parts: &Vec<String>,
    separator: &str,
    whole: String,
    fewer: &Vec<String>,
    most: String,
)
    requires
        call_ensures(join, (parts, separator), whole),
        call_ensures(join, (fewer, separator), most),
    ensures
        parts@.len() == 0 ==> whole@.len() == 0,
        parts@.len() == 1 ==> whole@ == parts@[0]@,
        parts@.len() > 1 && fewer@ == parts@.drop_last() ==> whole@ == most@ + separator@
            + parts@.last()@,
{
    assert(texts_of(parts@).len() == parts@.len());
    if parts@.len() > 1 && fewer@ == parts@.drop_last() {
        assert(texts_of(parts@).drop_last() =~= texts_of(fewer@));
    }
}

// ---- Values kept by name ----
/// A name is found at its first place, and only where it is.
pub proof fn a_name_is_found_at_its_first_place<V>(
    entries: &Vec<(String, V)>,
    name: &str,
    found: Option<usize>,
    value: Option<&V>,
)
    requires
        call_ensures(find::<V>, (entries, name), found),
        call_ensures(get::<V>, (entries, name), value),
    ensures
        found matches Some(at) ==> at < entries@.len() && entries@[at as int].0@ == name@ && forall|
            i: int,
        |
            0 <= i < at ==> (#[trigger] entries@[i]).0@ != name@,
        found is None ==> forall|i: int|
            0 <= i < entries@.len() ==> (#[trigger] entries@[i]).0@ != name@,
        value is Some <==> found is Some,
        value is Some ==> *value->0 == entries@[found->0 as int].1,
{
    place_is_the_first(entries@, name@);
}

} // verus!
