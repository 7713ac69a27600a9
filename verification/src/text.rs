//! Text as a sequence of characters: the small vocabulary the rest of the
//! library states its contracts in.

use vstd::prelude::*;
use vstd::string::StringExecFns;

verus! {

/// `String::push` appends one character to the end of the text.
pub assume_specification[ String::push ](text: &mut String, character: char)
    ensures
        final(text)@ == old(text)@.push(character),
;

/// What `{:?}` writes for a text: the quotes, and the escapes inside them.
pub uninterp spec fn quoted(text: Seq<char>) -> Seq<char>;

/// `format!` with `{:?}` on a `str`: the text between double quotes, with the
/// characters that do not print as themselves escaped. Which characters those
/// are is std's table, so the result is named rather than spelled out.
#[verifier::external_body]
pub(crate) fn quote(text: &str) -> (written: String)
    ensures
        written@ == quoted(text@),
{
    format!("{text:?}")
}

/// The characters of a text, in order.
pub fn characters(text: &str) -> (found: Vec<char>)
    ensures
        found@ == text@,
{
    let mut found: Vec<char> = Vec::new();
    for character in it: text.chars()
        invariant
            it.seq() == text@,
            found@ == text@.take(it.index()),
    {
        found.push(character);
        assert(text@.take(it.index() + 1) =~= text@.take(it.index()).push(text@[it.index()]));
    }
    assert(text@.take(text@.len() as int) =~= text@);
    found
}

/// The text that `characters[from..to]` spell.
pub fn spelled(characters: &Vec<char>, from: usize, to: usize) -> (text: String)
    requires
        from <= to <= characters@.len(),
    ensures
        text@ == characters@.subrange(from as int, to as int),
{
    let mut text = String::new();
    let mut at: usize = from;
    while at < to
        invariant
            from <= at <= to <= characters@.len(),
            text@ == characters@.subrange(from as int, at as int),
        decreases to - at,
    {
        text.push(characters[at]);
        assert(characters@.subrange(from as int, at + 1) =~= characters@.subrange(
            from as int,
            at as int,
        ).push(characters@[at as int]));
        at = at + 1;
    }
    text
}

/// Whether two texts hold the same characters.
pub fn same(left: &str, right: &str) -> (equal: bool)
    ensures
        equal == (left@ == right@),
{
    let a = characters(left);
    let b = characters(right);
    if a.len() != b.len() {
        return false;
    }
    let mut at: usize = 0;
    while at < a.len()
        invariant
            a@ == left@,
            b@ == right@,
            a@.len() == b@.len(),
            at <= a@.len(),
            forall|i: int| 0 <= i < at ==> a@[i] == b@[i],
        decreases a@.len() - at,
    {
        if a[at] != b[at] {
            assert(a@[at as int] != b@[at as int]);
            return false;
        }
        at = at + 1;
    }
    assert(a@ =~= b@);
    true
}

/// Whether `texts` holds `wanted`.
pub open spec fn holds_text(texts: Seq<String>, wanted: Seq<char>) -> bool {
    exists|i: int| 0 <= i < texts.len() && (#[trigger] texts[i])@ == wanted
}

/// Whether one of `texts` is `wanted`.
pub fn contains_text(texts: &Vec<String>, wanted: &str) -> (found: bool)
    ensures
        found == holds_text(texts@, wanted@),
{
    let mut at: usize = 0;
    while at < texts.len()
        invariant
            at <= texts@.len(),
            forall|i: int| 0 <= i < at ==> (#[trigger] texts@[i])@ != wanted@,
        decreases texts@.len() - at,
    {
        if same(texts[at].as_str(), wanted) {
            return true;
        }
        at = at + 1;
    }
    false
}

/// A text with a value, or none.
pub open spec fn text_of(text: Option<String>) -> Option<Seq<char>> {
    match text {
        Some(value) => Some(value@),
        None => None,
    }
}

/// The views of a list of texts.
pub open spec fn texts_of(texts: Seq<String>) -> Seq<Seq<char>> {
    texts.map_values(|text: String| text@)
}

// ---- Numbers ----
/// The character of one digit in a base of up to sixteen.
pub open spec fn digit_of(digit: nat) -> char {
    if digit < 10 {
        (48 + digit) as char
    } else {
        (87 + digit) as char
    }
}

/// A number written in `base`, with no leading zeros.
pub open spec fn numeral(value: nat, base: nat) -> Seq<char>
    decreases value,
    via numeral_shrinks
{
    if base < 2 || value < base {
        seq![digit_of(value)]
    } else {
        numeral(value / base, base).push(digit_of(value % base))
    }
}

#[via_fn]
proof fn numeral_shrinks(value: nat, base: nat) {
    if base >= 2 && value >= base {
        assert(value / base < value) by (nonlinear_arith)
            requires
                base >= 2,
                value >= base,
        ;
    }
}

/// A number written in decimal, with no leading zeros.
pub open spec fn decimal(value: nat) -> Seq<char> {
    numeral(value, 10)
}

/// `count` zeros.
pub open spec fn zeros(count: nat) -> Seq<char> {
    Seq::new(count, |i: int| '0')
}

/// `text` with zeros in front of it until it is `width` characters long.
pub open spec fn zero_padded(text: Seq<char>, width: nat) -> Seq<char> {
    if text.len() < width {
        zeros((width - text.len()) as nat) + text
    } else {
        text
    }
}

fn digit(value: u64) -> (character: char)
    requires
        value < 16,
    ensures
        character == digit_of(value as nat),
{
    let code: u8 = if value < 10 {
        48 + value as u8
    } else {
        87 + value as u8
    };
    code as char
}

fn write_numeral(value: u64, base: u64) -> (text: String)
    requires
        2 <= base <= 16,
    ensures
        text@ == numeral(value as nat, base as nat),
    decreases value,
{
    if value < base {
        let mut text = String::new();
        text.push(digit(value));
        assert(text@ =~= numeral(value as nat, base as nat));
        text
    } else {
        assert(value / base < value) by (nonlinear_arith)
            requires
                base >= 2,
                value >= base,
        ;
        let mut text = write_numeral(value / base, base);
        text.push(digit(value % base));
        text
    }
}

/// A number in decimal.
pub fn write_decimal(value: u64) -> (text: String)
    ensures
        text@ == decimal(value as nat),
{
    write_numeral(value, 10)
}

/// A number in lower-case hexadecimal.
pub fn write_hexadecimal(value: u64) -> (text: String)
    ensures
        text@ == numeral(value as nat, 16),
{
    write_numeral(value, 16)
}

/// A signed number in decimal.
pub open spec fn signed_decimal(value: int) -> Seq<char> {
    if value < 0 {
        seq!['-'] + decimal((-value) as nat)
    } else {
        decimal(value as nat)
    }
}

/// A signed number in decimal.
pub fn write_signed(value: i32) -> (text: String)
    ensures
        text@ == signed_decimal(value as int),
{
    if value < 0 {
        let mut text = String::new();
        text.push('-');
        assert(text@ =~= seq!['-']);
        let size: u64 = (-(value as i64)) as u64;
        let rest = write_decimal(size);
        text.append(rest.as_str());
        text
    } else {
        write_decimal(value as u64)
    }
}

/// `text` with zeros in front of it until it is `width` characters long.
pub fn pad(text: &str, width: usize) -> (padded: String)
    ensures
        padded@ == zero_padded(text@, width as nat),
{
    let characters = characters(text);
    let mut padded = String::new();
    let mut written: usize = characters.len();
    while written < width
        invariant
            written >= characters@.len(),
            written <= width || written == characters@.len(),
            padded@ == zeros((written - characters@.len()) as nat),
        decreases width - written,
    {
        padded.push('0');
        written = written + 1;
        assert(padded@ =~= zeros((written - characters@.len()) as nat));
    }
    padded.append(text);
    assert(padded@ =~= zero_padded(text@, width as nat));
    padded
}

// ---- Characters ----
/// The ASCII letters and digits.
pub open spec fn alphanumeric(character: char) -> bool {
    ||| '0' <= character <= '9'
    ||| 'A' <= character <= 'Z'
    ||| 'a' <= character <= 'z'
}

/// Whether a character is an ASCII letter or digit.
pub fn is_alphanumeric(character: char) -> (found: bool)
    ensures
        found == alphanumeric(character),
{
    ('0' <= character && character <= '9') || ('A' <= character && character <= 'Z') || ('a'
        <= character && character <= 'z')
}

/// A text of at least one character, all of them ASCII letters, digits, hyphens
/// or underscores: the shape of a name that is safe as one component of a path.
pub open spec fn plain_name(name: Seq<char>) -> bool {
    name.len() > 0 && forall|i: int|
        0 <= i < name.len() ==> alphanumeric(#[trigger] name[i]) || name[i] == '-' || name[i]
            == '_'
}

/// Whether a text is a name made of letters, digits, hyphens and underscores.
pub fn is_plain_name(name: &str) -> (found: bool)
    ensures
        found == plain_name(name@),
{
    let all = characters(name);
    let mut at: usize = 0;
    while at < all.len()
        invariant
            all@ == name@,
            at <= all@.len(),
            forall|i: int|
                0 <= i < at ==> alphanumeric(#[trigger] all@[i]) || all@[i] == '-' || all@[i]
                    == '_',
        decreases all@.len() - at,
    {
        if !(is_alphanumeric(all[at]) || all[at] == '-' || all[at] == '_') {
            assert(!(alphanumeric(name@[at as int]) || name@[at as int] == '-' || name@[at as int]
                == '_'));
            return false;
        }
        at = at + 1;
    }
    all.len() > 0
}

/// Whether a text holds a character.
pub open spec fn holds_character(text: Seq<char>, wanted: char) -> bool {
    exists|i: int| 0 <= i < text.len() && #[trigger] text[i] == wanted
}

/// Whether a text holds a character.
pub fn contains_character(text: &str, wanted: char) -> (found: bool)
    ensures
        found == holds_character(text@, wanted),
{
    let all = characters(text);
    let mut at: usize = 0;
    while at < all.len()
        invariant
            all@ == text@,
            at <= all@.len(),
            forall|i: int| 0 <= i < at ==> #[trigger] all@[i] != wanted,
        decreases all@.len() - at,
    {
        if all[at] == wanted {
            assert(text@[at as int] == wanted);
            return true;
        }
        at = at + 1;
    }
    false
}

// ---- Whitespace ----
/// The characters with Unicode's `White_Space` property.
pub open spec fn white_space(character: char) -> bool {
    let code = character as u32;
    ||| 0x9 <= code <= 0xd
    ||| code == 0x20
    ||| code == 0x85
    ||| code == 0xa0
    ||| code == 0x1680
    ||| 0x2000 <= code <= 0x200a
    ||| code == 0x2028
    ||| code == 0x2029
    ||| code == 0x202f
    ||| code == 0x205f
    ||| code == 0x3000
}

/// Whether a character has Unicode's `White_Space` property.
pub fn is_white_space(character: char) -> (found: bool)
    ensures
        found == white_space(character),
{
    let code: u32 = character as u32;
    (0x9 <= code && code <= 0xd) || code == 0x20 || code == 0x85 || code == 0xa0 || code == 0x1680
        || (0x2000 <= code && code <= 0x200a) || code == 0x2028 || code == 0x2029 || code == 0x202f
        || code == 0x205f || code == 0x3000
}

/// Whether a text holds nothing but white space.
pub open spec fn blank(text: Seq<char>) -> bool {
    forall|i: int| 0 <= i < text.len() ==> white_space(#[trigger] text[i])
}

/// Whether a text holds nothing but white space, which is what it means for the
/// text to be empty once trimmed.
pub fn is_blank(text: &str) -> (found: bool)
    ensures
        found == blank(text@),
{
    let all = characters(text);
    let mut at: usize = 0;
    while at < all.len()
        invariant
            all@ == text@,
            at <= all@.len(),
            forall|i: int| 0 <= i < at ==> white_space(#[trigger] all@[i]),
        decreases all@.len() - at,
    {
        if !is_white_space(all[at]) {
            assert(!white_space(text@[at as int]));
            return false;
        }
        at = at + 1;
    }
    true
}

/// `text` without the white space it ends with.
pub open spec fn trimmed_end(text: Seq<char>) -> Seq<char>
    decreases text.len(),
{
    if text.len() > 0 && white_space(text.last()) {
        trimmed_end(text.drop_last())
    } else {
        text
    }
}

/// `text` without the white space it begins with.
pub open spec fn trimmed_start(text: Seq<char>) -> Seq<char>
    decreases text.len(),
{
    if text.len() > 0 && white_space(text.first()) {
        trimmed_start(text.drop_first())
    } else {
        text
    }
}

/// `text` without the white space around it.
pub open spec fn trimmed(text: Seq<char>) -> Seq<char> {
    trimmed_end(trimmed_start(text))
}

/// A text trimmed at both ends.
pub fn trim(text: &str) -> (kept: String)
    ensures
        kept@ == trimmed(text@),
{
    let all = characters(text);
    let mut from: usize = 0;
    assert(all@.subrange(0, all@.len() as int) =~= all@);
    while from < all.len() && is_white_space(all[from])
        invariant
            all@ == text@,
            from <= all@.len(),
            trimmed_start(text@) == trimmed_start(all@.subrange(from as int, all@.len() as int)),
        decreases all@.len() - from,
    {
        let ghost rest = all@.subrange(from as int, all@.len() as int);
        assert(rest.drop_first() =~= all@.subrange(from + 1, all@.len() as int));
        from = from + 1;
    }
    let mut to: usize = all.len();
    while from < to && is_white_space(all[to - 1])
        invariant
            all@ == text@,
            from <= to <= all@.len(),
            trimmed(text@) == trimmed_end(all@.subrange(from as int, to as int)),
        decreases to,
    {
        let ghost rest = all@.subrange(from as int, to as int);
        assert(rest.drop_last() =~= all@.subrange(from as int, to - 1));
        to = to - 1;
    }
    spelled(&all, from, to)
}

/// A text that is nothing but white space is empty once trimmed, and no other
/// text is.
pub proof fn trimming_empties_exactly_the_blank(text: Seq<char>)
    ensures
        trimmed(text).len() == 0 <==> blank(text),
{
    trimming_the_start(text);
    trimming_the_end(trimmed_start(text));
    let rest = trimmed_start(text);
    if blank(text) {
        assert(rest.len() == 0);
    } else if trimmed_end(rest).len() == 0 {
        assert(white_space(rest[0]));
    }
}

proof fn trimming_the_start(text: Seq<char>)
    ensures
        trimmed_start(text).len() == 0 <==> blank(text),
        trimmed_start(text).len() > 0 ==> !white_space(trimmed_start(text)[0]),
    decreases text.len(),
{
    if text.len() > 0 && white_space(text.first()) {
        trimming_the_start(text.drop_first());
        if blank(text.drop_first()) {
            assert forall|i: int| 0 <= i < text.len() implies white_space(#[trigger] text[i]) by {
                if i > 0 {
                    assert(white_space(text.drop_first()[i - 1]));
                }
            }
        }
    } else if text.len() > 0 {
        assert(!white_space(text[0]));
    }
}

proof fn trimming_the_end(text: Seq<char>)
    ensures
        trimmed_end(text).len() == 0 <==> blank(text),
    decreases text.len(),
{
    if text.len() > 0 && white_space(text.last()) {
        trimming_the_end(text.drop_last());
        if blank(text.drop_last()) {
            assert forall|i: int| 0 <= i < text.len() implies white_space(#[trigger] text[i]) by {
                if i < text.len() - 1 {
                    assert(white_space(text.drop_last()[i]));
                }
            }
        }
    } else if text.len() > 0 {
        assert(!white_space(text[text.len() - 1]));
    }
}

/// The runs of a text that hold no white space, in order.
pub open spec fn words(text: Seq<char>) -> Seq<Seq<char>>
    decreases text.len(),
{
    if text.len() == 0 {
        seq![]
    } else {
        let before = words(text.drop_last());
        if white_space(text.last()) {
            before
        } else if text.len() == 1 || white_space(text[text.len() - 2]) {
            before.push(seq![text.last()])
        } else {
            before.drop_last().push(before.last().push(text.last()))
        }
    }
}

/// Parts with `separator` between each one and the next.
pub open spec fn separated(parts: Seq<Seq<char>>, separator: Seq<char>) -> Seq<char>
    decreases parts.len(),
{
    if parts.len() == 0 {
        seq![]
    } else if parts.len() == 1 {
        parts[0]
    } else {
        separated(parts.drop_last(), separator) + separator + parts.last()
    }
}

/// `parts` with `separator` between each one and the next.
pub fn join(parts: &Vec<String>, separator: &str) -> (whole: String)
    ensures
        whole@ == separated(texts_of(parts@), separator@),
{
    let mut whole = String::new();
    let mut at: usize = 0;
    let ghost all = texts_of(parts@);
    assert(all.take(0) =~= seq![]);
    while at < parts.len()
        invariant
            at <= parts@.len(),
            all == texts_of(parts@),
            whole@ == separated(all.take(at as int), separator@),
        decreases parts@.len() - at,
    {
        if at > 0 {
            whole.append(separator);
        }
        whole.append(parts[at].as_str());
        proof {
            let longer = all.take(at + 1);
            assert(longer.drop_last() =~= all.take(at as int));
            if at == 0 {
                assert(whole@ =~= longer[0]);
            } else {
                assert(whole@ == separated(longer.drop_last(), separator@) + separator@
                    + longer.last());
            }
        }
        at = at + 1;
    }
    assert(all.take(at as int) =~= all);
    whole
}

/// A copy of a text that may be absent.
pub fn copy_text(text: &Option<String>) -> (copy: Option<String>)
    ensures
        copy == *text,
{
    match text {
        Some(value) => Some(value.clone()),
        None => None,
    }
}

/// A text's words, with one space between each and the next.
pub fn collapse(text: &str) -> (collapsed: String)
    ensures
        collapsed@ == separated(words(text@), seq![' ']),
{
    let all = characters(text);
    let mut collapsed = String::new();
    let mut inside = false;
    let mut started = false;
    let mut at: usize = 0;
    assert(all@.take(0) =~= seq![]);
    while at < all.len()
        invariant
            all@ == text@,
            at <= all@.len(),
            collapsed@ == separated(words(all@.take(at as int)), seq![' ']),
            inside == (at > 0 && !white_space(all@[at - 1])),
            started == (words(all@.take(at as int)).len() > 0),
            inside ==> started,
        decreases all@.len() - at,
    {
        let ghost before = words(all@.take(at as int));
        let ghost next = all@.take(at + 1);
        assert(next.drop_last() =~= all@.take(at as int));
        if is_white_space(all[at]) {
            inside = false;
        } else {
            if !inside && started {
                collapsed.push(' ');
            }
            collapsed.push(all[at]);
            proof {
                let last = all@[at as int];
                if inside {
                    let whole = before.drop_last().push(before.last().push(last));
                    assert(words(next) == whole);
                    assert(whole.drop_last() =~= before.drop_last());
                    assert(collapsed@ =~= separated(whole, seq![' ']));
                } else {
                    let whole = before.push(seq![last]);
                    assert(words(next) == whole);
                    assert(whole.drop_last() =~= before);
                    assert(collapsed@ =~= separated(whole, seq![' ']));
                }
            }
            inside = true;
            started = true;
        }
        at = at + 1;
    }
    assert(all@.take(all@.len() as int) =~= all@);
    collapsed
}

} // verus!
