//! The name of the conversation a member's turns belong to.
//!
//! A consumer keys a transcript on this value and refuses one outside its own
//! rule: non-empty, at most [`MAX_SESSION_CHARS`] characters, ASCII letters,
//! digits, `-`, `_` and `.` only, never starting with `.`. So the rule is applied
//! here rather than assumed of the two ids the name is made of.

use vstd::prelude::*;
use vstd::string::StringExecFns;

use crate::text::{
    alphanumeric, characters, is_alphanumeric, numeral, pad, plain_name, spelled,
    write_hexadecimal, zero_padded,
};

verus! {

/// The character bound on a session label's value.
pub const MAX_SESSION_CHARS: usize = 128;

/// The hex characters a label that had to be shortened ends with.
pub const SESSION_DIGEST_CHARS: usize = 16;

/// What shortening leaves to the two ids, once the `.`, the `-` and the digest
/// are paid for.
pub const SESSION_BUDGET: usize = 110;

/// Half of that.
pub const SESSION_HALF: usize = 55;

/// Whether a label may hold a character.
pub open spec fn label_character(character: char) -> bool {
    alphanumeric(character) || character == '-' || character == '_' || character == '.'
}

/// One id rewritten into the label alphabet: every character outside it becomes a
/// `-`, which keeps two ids apart where dropping the character would not.
pub open spec fn sanitized(id: Seq<char>) -> Seq<char> {
    Seq::new(
        id.len(),
        |i: int|
            if label_character(id[i]) {
                id[i]
            } else {
                '-'
            },
    )
}

/// The first value of the 64-bit FNV-1a digest.
pub const DIGEST_OFFSET: u64 = 0xcbf2_9ce4_8422_2325;

/// The factor of the 64-bit FNV-1a digest.
pub const DIGEST_PRIME: u64 = 0x0000_0100_0000_01b3;

/// FNV-1a, 64 bits: the same value for the same bytes in every process and every
/// build.
pub open spec fn digest_of(bytes: Seq<u8>) -> u64
    decreases bytes.len(),
{
    if bytes.len() == 0 {
        DIGEST_OFFSET
    } else {
        (digest_of(bytes.drop_last()) ^ (bytes.last() as u64)).wrapping_mul(DIGEST_PRIME)
    }
}

/// How much of each id a shortened label keeps, from their lengths: at least half
/// of the budget each, and whatever the other did not need.
pub open spec fn shares(stream: nat, member: nat) -> (nat, nat) {
    if member <= SESSION_HALF {
        ((SESSION_BUDGET - member) as nat, member)
    } else if stream <= SESSION_BUDGET - SESSION_HALF {
        (stream, (SESSION_BUDGET - stream) as nat)
    } else {
        ((SESSION_BUDGET - SESSION_HALF) as nat, SESSION_HALF as nat)
    }
}

/// The stream and the member, joined.
pub open spec fn joined(stream: Seq<char>, member: Seq<char>) -> Seq<char> {
    sanitized(stream) + "."@ + sanitized(member)
}

/// A pair past the bound brought under it: the end of the stream, the beginning
/// of the member, and a digest of the whole pair.
pub open spec fn shortened(stream: Seq<char>, member: Seq<char>) -> Seq<char> {
    let from_stream = shares(stream.len(), member.len()).0;
    let from_member = shares(stream.len(), member.len()).1;
    sanitized(stream).skip(stream.len() - from_stream) + "."@ + sanitized(member).take(
        from_member as int,
    ) + "-"@ + zero_padded(
        numeral(digest_of(vstd::utf8::encode_utf8(joined(stream, member))) as nat, 16),
        SESSION_DIGEST_CHARS as nat,
    )
}

/// `text` without the dots it begins with.
pub open spec fn undotted(text: Seq<char>) -> Seq<char>
    decreases text.len(),
{
    if text.len() > 0 && text[0] == '.' {
        undotted(text.drop_first())
    } else {
        text
    }
}

/// The conversation one member's turns on one stream belong to, or `None` when
/// nothing of the two ids survives.
pub open spec fn session_of(stream: Seq<char>, member: Seq<char>) -> Option<Seq<char>> {
    let whole = joined(stream, member);
    let label = if whole.len() <= MAX_SESSION_CHARS {
        whole
    } else {
        shortened(stream, member)
    };
    let session = undotted(label);
    if session.len() > 0 {
        Some(session)
    } else {
        None
    }
}

fn sanitize(id: &str) -> (clean: String)
    ensures
        clean@ == sanitized(id@),
{
    let all = characters(id);
    let mut clean = String::new();
    let mut at: usize = 0;
    while at < all.len()
        invariant
            all@ == id@,
            at <= all@.len(),
            clean@ == sanitized(id@).take(at as int),
        decreases all@.len() - at,
    {
        let character = all[at];
        let kept = if is_alphanumeric(character) || character == '-' || character == '_'
            || character == '.' {
            character
        } else {
            '-'
        };
        clean.push(kept);
        assert(sanitized(id@).take(at + 1) =~= sanitized(id@).take(at as int).push(kept));
        at = at + 1;
    }
    assert(sanitized(id@).take(at as int) =~= sanitized(id@));
    clean
}

fn digest(value: &str) -> (hash: u64)
    ensures
        hash == digest_of(vstd::utf8::encode_utf8(value@)),
{
    let bytes = value.as_bytes();
    let mut hash: u64 = DIGEST_OFFSET;
    let mut at: usize = 0;
    assert(bytes@.take(0) =~= seq![]);
    while at < bytes.len()
        invariant
            at <= bytes@.len(),
            hash == digest_of(bytes@.take(at as int)),
        decreases bytes@.len() - at,
    {
        hash = (hash ^ (bytes[at] as u64)).wrapping_mul(DIGEST_PRIME);
        assert(bytes@.take(at + 1).drop_last() =~= bytes@.take(at as int));
        at = at + 1;
    }
    assert(bytes@.take(at as int) =~= bytes@);
    hash
}

fn shorten(stream: &str, member: &str, pair: &str) -> (label: String)
    requires
        stream@.len() + member@.len() + 1 > MAX_SESSION_CHARS,
        pair@ == stream@ + "."@ + member@,
        sanitized(stream@) == stream@,
        sanitized(member@) == member@,
    ensures
        label@ == shortened(stream@, member@),
{
    let all_stream = characters(stream);
    let all_member = characters(member);
    let streams: usize = all_stream.len();
    let members: usize = all_member.len();
    let (from_stream, from_member): (usize, usize) = if members <= SESSION_HALF {
        (SESSION_BUDGET - members, members)
    } else if streams <= SESSION_BUDGET - SESSION_HALF {
        (streams, SESSION_BUDGET - streams)
    } else {
        (SESSION_BUDGET - SESSION_HALF, SESSION_HALF)
    };
    let mut label = spelled(&all_stream, streams - from_stream, streams);
    assert(label@ =~= stream@.skip(streams - from_stream));
    label.append(".");
    let head = spelled(&all_member, 0, from_member);
    assert(head@ =~= member@.take(from_member as int));
    label.append(head.as_str());
    label.append("-");
    let hash = write_hexadecimal(digest(pair));
    label.append(pad(hash.as_str(), SESSION_DIGEST_CHARS).as_str());
    label
}

proof fn sanitizing_settles(id: Seq<char>)
    ensures
        sanitized(sanitized(id)) == sanitized(id),
{
    assert(sanitized(sanitized(id)) =~= sanitized(id));
}

/// The conversation one member's turns on one stream belong to:
/// `"<stream>.<member>"`, under the consumer's rule.
///
/// A pair past the bound is shortened rather than cut off the end, because
/// cutting off the end takes the member with it. What comes back keeps a share of
/// each id and a digest of the whole pair.
pub fn session_label(stream: &str, member: &str) -> (session: Option<String>)
    ensures
        crate::text::text_of(session) == session_of(stream@, member@),
{
    let clean_stream = sanitize(stream);
    let clean_member = sanitize(member);
    let mut whole = clean_stream.clone();
    whole.append(".");
    whole.append(clean_member.as_str());
    let length: usize = characters(whole.as_str()).len();
    proof {
        reveal_strlit(".");
    }
    let label = if length <= MAX_SESSION_CHARS {
        whole
    } else {
        proof {
            sanitizing_settles(stream@);
            sanitizing_settles(member@);
        }
        shorten(clean_stream.as_str(), clean_member.as_str(), whole.as_str())
    };
    proof {
        sanitizing_settles(stream@);
        sanitizing_settles(member@);
    }
    let all = characters(label.as_str());
    let mut at: usize = 0;
    assert(all@.skip(0) =~= all@);
    while at < all.len() && all[at] == '.'
        invariant
            at <= all@.len(),
            undotted(all@) == undotted(all@.skip(at as int)),
        decreases all@.len() - at,
    {
        assert(all@.skip(at as int).drop_first() =~= all@.skip(at + 1));
        at = at + 1;
    }
    if at < all.len() {
        let session = spelled(&all, at, all.len());
        assert(session@ =~= all@.skip(at as int));
        Some(session)
    } else {
        None
    }
}

proof fn a_hex_numeral_is_short(value: nat, digits: nat)
    requires
        value < vstd::arithmetic::power::pow(16, digits),
        digits > 0,
    ensures
        0 < numeral(value, 16).len() <= digits,
        forall|i: int| 0 <= i < numeral(value, 16).len() ==> alphanumeric(#[trigger] numeral(value, 16)[i]),
    decreases value,
{
    if value >= 16 {
        reveal(vstd::arithmetic::power::pow);
        if digits == 1 {
            assert(vstd::arithmetic::power::pow(16, 1) == 16) by {
                vstd::arithmetic::power::lemma_pow1(16);
            }
        }
        let less = (digits - 1) as nat;
        assert(vstd::arithmetic::power::pow(16, digits) == 16 * vstd::arithmetic::power::pow(16, less));
        a_hex_numeral_is_short(value / 16, less);
    }
}

proof fn undotting_keeps_the_rest(text: Seq<char>)
    ensures
        undotted(text).len() <= text.len(),
        undotted(text).len() > 0 ==> undotted(text)[0] != '.',
        forall|i: int|
            0 <= i < undotted(text).len() ==> undotted(text)[i] == #[trigger] text[i + text.len()
                - undotted(text).len()],
        (forall|i: int| 0 <= i < text.len() ==> label_character(#[trigger] text[i])) ==> (forall|
            i: int,
        |
            0 <= i < undotted(text).len() ==> label_character(#[trigger] undotted(text)[i])),
    decreases text.len(),
{
    if text.len() > 0 && text[0] == '.' {
        let rest = text.drop_first();
        undotting_keeps_the_rest(rest);
        assert forall|i: int| 0 <= i < undotted(text).len() implies undotted(text)[i]
            == #[trigger] text[i + text.len() - undotted(text).len()] by {
            let j = i + rest.len() - undotted(rest).len();
            assert(undotted(rest)[i] == rest[j]);
        }
        if forall|i: int| 0 <= i < text.len() ==> label_character(#[trigger] text[i]) {
            assert forall|i: int| 0 <= i < rest.len() implies label_character(#[trigger] rest[i]) by {
                assert(rest[i] == text[i + 1]);
            }
        }
    }
}

/// What a session is, whatever the two ids are: never empty, within the bound, in
/// the consumer's alphabet, and never opening with a `.`.
pub proof fn a_session_obeys_the_consumers_rule(stream: Seq<char>, member: Seq<char>)
    ensures
        session_of(stream, member) matches Some(session) ==> {
            &&& 0 < session.len() <= MAX_SESSION_CHARS
            &&& session[0] != '.'
            &&& forall|i: int| 0 <= i < session.len() ==> label_character(#[trigger] session[i])
        },
{
    reveal_strlit(".");
    reveal_strlit("-");
    let whole = joined(stream, member);
    if whole.len() <= MAX_SESSION_CHARS {
        undotting_keeps_the_rest(whole);
    } else {
        let label = shortened(stream, member);
        let hash = digest_of(vstd::utf8::encode_utf8(whole)) as nat;
        a_digest_is_sixteen_characters(hash as u64);
        let tail = zero_padded(numeral(hash, 16), SESSION_DIGEST_CHARS as nat);
        assert forall|i: int| 0 <= i < label.len() implies label_character(#[trigger] label[i]) by {
            let from_stream = shares(stream.len(), member.len()).0;
            let from_member = shares(stream.len(), member.len()).1;
            let start = from_stream + 1 + from_member + 1;
            if i >= start {
                assert(label[i] == tail[i - start]);
            }
        }
        undotting_keeps_the_rest(label);
    }
}

proof fn a_digest_is_sixteen_characters(hash: u64)
    ensures
        zero_padded(numeral(hash as nat, 16), SESSION_DIGEST_CHARS as nat).len()
            == SESSION_DIGEST_CHARS,
        forall|i: int|
            0 <= i < SESSION_DIGEST_CHARS ==> alphanumeric(
                #[trigger] zero_padded(numeral(hash as nat, 16), SESSION_DIGEST_CHARS as nat)[i],
            ),
{
    assert(vstd::arithmetic::power::pow(16, 16) == 0x1_0000_0000_0000_0000) by {
        reveal_with_fuel(vstd::arithmetic::power::pow, 17);
    }
    a_hex_numeral_is_short(hash as nat, 16);
    let text = numeral(hash as nat, 16);
    let whole = zero_padded(text, SESSION_DIGEST_CHARS as nat);
    assert forall|i: int| 0 <= i < SESSION_DIGEST_CHARS implies alphanumeric(#[trigger] whole[i]) by {
        let pad = SESSION_DIGEST_CHARS - text.len();
        if i >= pad {
            assert(whole[i] == text[i - pad]);
        }
    }
}

/// A shortened label fills the bound exactly, and neither id is crowded out by the
/// other: each keeps at least half of what the two share, or all of itself.
pub proof fn a_shortened_session_keeps_both_ids(stream: Seq<char>, member: Seq<char>)
    requires
        joined(stream, member).len() > MAX_SESSION_CHARS,
    ensures
        shortened(stream, member).len() == MAX_SESSION_CHARS,
        shares(stream.len(), member.len()).0 >= SESSION_HALF || shares(
            stream.len(),
            member.len(),
        ).0 == stream.len(),
        shares(stream.len(), member.len()).1 >= SESSION_HALF || shares(
            stream.len(),
            member.len(),
        ).1 == member.len(),
        shares(stream.len(), member.len()).0 <= stream.len(),
        shares(stream.len(), member.len()).1 <= member.len(),
        shares(stream.len(), member.len()).0 + shares(stream.len(), member.len()).1
            == SESSION_BUDGET,
{
    reveal_strlit(".");
    reveal_strlit("-");
    a_digest_is_sixteen_characters(
        digest_of(vstd::utf8::encode_utf8(joined(stream, member))),
    );
}

/// Ids already in the alphabet that fit the bound are joined as they are, unless
/// the stream opens with the `.` no session may begin with.
pub proof fn a_pair_that_fits_is_joined_whole(stream: Seq<char>, member: Seq<char>)
    requires
        forall|i: int| 0 <= i < stream.len() ==> label_character(#[trigger] stream[i]),
        forall|i: int| 0 <= i < member.len() ==> label_character(#[trigger] member[i]),
        stream.len() > 0,
        stream[0] != '.',
        stream.len() + 1 + member.len() <= MAX_SESSION_CHARS,
    ensures
        session_of(stream, member) == Some(stream + "."@ + member),
{
    reveal_strlit(".");
    assert(sanitized(stream) =~= stream);
    assert(sanitized(member) =~= member);
    assert((stream + "."@ + member)[0] == stream[0]);
}

/// Whether a text is empty or ends with a dot.
spec fn ends_dotted(text: Seq<char>) -> bool {
    text.len() == 0 || text.last() == '.'
}

spec fn dotless(text: Seq<char>) -> bool {
    text.len() > 0 && forall|i: int| 0 <= i < text.len() ==> #[trigger] text[i] != '.'
}

proof fn undotting_stops_at_a_name(front: Seq<char>, name: Seq<char>)
    requires
        ends_dotted(front),
        dotless(name),
    ensures
        undotted(front + name) == undotted(front) + name,
        ends_dotted(undotted(front)),
    decreases front.len(),
{
    let whole = front + name;
    if front.len() == 0 {
        assert(whole =~= name);
        assert(undotted(front) + name =~= name);
    } else if front[0] == '.' {
        let rest = front.drop_first();
        assert(whole.drop_first() =~= rest + name);
        undotting_stops_at_a_name(rest, name);
    } else {
        assert(whole[0] == front[0]);
    }
}

proof fn a_text_ends_in_one_name(
    front: Seq<char>,
    name: Seq<char>,
    other_front: Seq<char>,
    other: Seq<char>,
)
    requires
        ends_dotted(front) && ends_dotted(other_front),
        dotless(name) && dotless(other),
        front + name == other_front + other,
    ensures
        name == other,
{
    let whole = front + name;
    assert(whole.len() == front.len() + name.len());
    assert((other_front + other).len() == other_front.len() + other.len());
    if name.len() > other.len() {
        let at = other_front.len() - 1;
        assert(whole[at] == other_front[at]);
        assert(whole[at] == name[at - front.len()]);
    } else if name.len() < other.len() {
        let at = front.len() - 1;
        assert(whole[at] == front[at]);
        assert((other_front + other)[at] == other[at - other_front.len()]);
    } else {
        assert(whole.skip(front.len() as int) =~= name);
        assert((other_front + other).skip(other_front.len() as int) =~= other);
    }
}

/// What of a session follows its last dot: the member's name, and the digest where the
/// pair was shortened.
spec fn name_in(stream: Seq<char>, member: Seq<char>) -> Seq<char> {
    if joined(stream, member).len() <= MAX_SESSION_CHARS {
        member
    } else {
        member + "-"@ + zero_padded(
            numeral(digest_of(vstd::utf8::encode_utf8(joined(stream, member))) as nat, 16),
            SESSION_DIGEST_CHARS as nat,
        )
    }
}

proof fn a_session_ends_in_its_members_name(stream: Seq<char>, member: Seq<char>) -> (front: Seq<
    char,
>)
    requires
        plain_name(member),
        member.len() <= SESSION_HALF,
    ensures
        session_of(stream, member) == Some(front + name_in(stream, member)),
        ends_dotted(front),
        dotless(name_in(stream, member)),
{
    reveal_strlit(".");
    reveal_strlit("-");
    let name = name_in(stream, member);
    let whole = joined(stream, member);
    let digest = digest_of(vstd::utf8::encode_utf8(whole));
    a_digest_is_sixteen_characters(digest);
    assert(sanitized(member) =~= member);
    let front = if whole.len() <= MAX_SESSION_CHARS {
        sanitized(stream) + "."@
    } else {
        sanitized(stream).skip(stream.len() - shares(stream.len(), member.len()).0) + "."@
    };
    let label = if whole.len() <= MAX_SESSION_CHARS {
        whole
    } else {
        assert(sanitized(member).take(member.len() as int) =~= member);
        shortened(stream, member)
    };
    assert(label =~= front + name);
    let tail = zero_padded(numeral(digest as nat, 16), SESSION_DIGEST_CHARS as nat);
    assert forall|i: int| 0 <= i < name.len() implies #[trigger] name[i] != '.' by {
        if i < member.len() {
            assert(name[i] == member[i]);
        } else if i > member.len() {
            assert(name[i] == tail[i - member.len() - 1]);
        }
    }
    undotting_stops_at_a_name(front, name);
    undotted(front)
}

/// Two members of one run have two conversations: plain names that each fit into half of
/// what a session leaves to the two ids give two different sessions, on every stream.
pub proof fn two_members_have_two_sessions(stream: Seq<char>, one: Seq<char>, other: Seq<char>)
    requires
        plain_name(one),
        plain_name(other),
        one.len() <= SESSION_HALF,
        other.len() <= SESSION_HALF,
        one != other,
    ensures
        session_of(stream, one) is Some,
        session_of(stream, other) is Some,
        session_of(stream, one) != session_of(stream, other),
{
    reveal_strlit(".");
    reveal_strlit("-");
    let front = a_session_ends_in_its_members_name(stream, one);
    let behind = a_session_ends_in_its_members_name(stream, other);
    if session_of(stream, one) == session_of(stream, other) {
        let (left, right) = (name_in(stream, one), name_in(stream, other));
        a_text_ends_in_one_name(front, left, behind, right);
        a_digest_is_sixteen_characters(digest_of(vstd::utf8::encode_utf8(joined(stream, one))));
        a_digest_is_sixteen_characters(digest_of(vstd::utf8::encode_utf8(joined(stream, other))));
        if one.len() == other.len() {
            assert(left.take(one.len() as int) =~= one);
            assert(right.take(other.len() as int) =~= other);
        }
    }
}

/// Whether a character is one a session may hold: an ASCII letter or digit, a hyphen, an
/// underscore or a dot.
pub open spec fn in_session(character: char) -> bool {
    ||| '0' <= character <= '9'
    ||| 'A' <= character <= 'Z'
    ||| 'a' <= character <= 'z'
    ||| character == '-'
    ||| character == '_'
    ||| character == '.'
}

/// Whether `clean` is a text with a hyphen in place of each character a session may not
/// hold.
pub open spec fn cleans(clean: Seq<char>, text: Seq<char>) -> bool {
    clean.len() == text.len() && forall|i: int|
        0 <= i < text.len() ==> #[trigger] clean[i] == if in_session(text[i]) {
            text[i]
        } else {
            '-'
        }
}

/// A pair of ids that fits is the stream, a dot and the member, cleaned, without the dots
/// it begins with: a session is refused only where nothing else is left.
pub proof fn a_session_that_fits_is_the_two_ids(
    stream: &str,
    member: &str,
    session: Option<String>,
    clean_stream: Seq<char>,
    clean_member: Seq<char>,
)
    requires
        call_ensures(session_label, (stream, member), session),
        cleans(clean_stream, stream@),
        cleans(clean_member, member@),
        stream@.len() + member@.len() < 128,
    ensures
        session matches Some(found) ==> found@.len() <= stream@.len() + 1 + member@.len() && found@
            == (clean_stream + seq!['.'] + clean_member).skip(
            stream@.len() + 1 + member@.len() - found@.len(),
        ) && found@[0] != '.' && forall|i: int|
            0 <= i < stream@.len() + 1 + member@.len() - found@.len() ==> #[trigger] (clean_stream
                + seq!['.'] + clean_member)[i] == '.',
        session is None ==> forall|i: int|
            0 <= i < stream@.len() + 1 + member@.len() ==> #[trigger] (clean_stream + seq!['.']
                + clean_member)[i] == '.',
{
    reveal_strlit(".");
    assert(sanitized(stream@) =~= clean_stream);
    assert(sanitized(member@) =~= clean_member);
    let whole = clean_stream + seq!['.'] + clean_member;
    assert(joined(stream@, member@) =~= whole);
    only_dots_come_off(whole);
    undotting_keeps_the_rest(whole);
    if let Some(found) = session {
        assert(found@ =~= whole.skip(whole.len() - found@.len())) by {
            assert forall|i: int| 0 <= i < found@.len() implies found@[i] == whole[i + whole.len()
                - found@.len()] by {
                assert(undotted(whole)[i] == whole[i + whole.len() - undotted(whole).len()]);
            }
        }
    }
}

proof fn only_dots_come_off(text: Seq<char>)
    ensures
        forall|i: int|
            0 <= i < text.len() - undotted(text).len() ==> #[trigger] text[i] == '.',
    decreases text.len(),
{
    if text.len() > 0 && text[0] == '.' {
        let rest = text.drop_first();
        only_dots_come_off(rest);
        undotting_keeps_the_rest(rest);
        assert forall|i: int| 0 <= i < text.len() - undotted(text).len() implies #[trigger] text[i]
            == '.' by {
            if i > 0 {
                assert(rest[i - 1] == '.');
            }
        }
    }
}

/// A pair that does not fit keeps the end of its stream and the beginning of its member,
/// at least half of what the two share each, and ends in a digest of sixteen characters.
pub proof fn a_session_that_does_not_fit_keeps_a_share_of_both(
    stream: &str,
    member: &str,
    session: Option<String>,
    clean_stream: Seq<char>,
    clean_member: Seq<char>,
)
    requires
        call_ensures(session_label, (stream, member), session),
        cleans(clean_stream, stream@),
        cleans(clean_member, member@),
        stream@.len() + member@.len() >= 128,
    ensures
        exists|s: nat, m: nat, digest: Seq<char>|
            #![trigger clean_stream.skip(clean_stream.len() - s), clean_member.take(m as int), digest.len()]
            s <= clean_stream.len() && m <= clean_member.len() && s + m == 110 && (s >= 55 || s
                == clean_stream.len()) && (m >= 55 || m == clean_member.len()) && digest.len() == 16
                && (session matches Some(found) && found@ == undotted(
                clean_stream.skip(clean_stream.len() - s) + seq!['.'] + clean_member.take(
                    m as int,
                ) + seq!['-'] + digest,
            )),
{
    reveal_strlit(".");
    reveal_strlit("-");
    assert(sanitized(stream@) =~= clean_stream);
    assert(sanitized(member@) =~= clean_member);
    a_shortened_session_keeps_both_ids(stream@, member@);
    let (s, m) = shares(stream@.len(), member@.len());
    let hash = digest_of(vstd::utf8::encode_utf8(joined(stream@, member@)));
    a_digest_is_sixteen_characters(hash);
    let digest = zero_padded(numeral(hash as nat, 16), SESSION_DIGEST_CHARS as nat);
    let label = clean_stream.skip(clean_stream.len() - s) + seq!['.'] + clean_member.take(m as int)
        + seq!['-'] + digest;
    assert(shortened(stream@, member@) =~= label);
    let dash = s + 1 + m;
    assert(label[dash as int] == '-');
    a_label_keeps_what_is_no_dot(label, dash as int);
    assert(digest.len() == 16);
}

proof fn a_label_keeps_what_is_no_dot(text: Seq<char>, at: int)
    requires
        0 <= at < text.len(),
        text[at] != '.',
    ensures
        undotted(text).len() > 0,
    decreases text.len(),
{
    if text[0] == '.' {
        a_label_keeps_what_is_no_dot(text.drop_first(), at - 1);
    }
}

} // verus!
