//! What was written as JSON can be read one way only, and what a run wrote of a turn is
//! read back.

use vstd::prelude::*;
use vstd::utf8::char_u32_cast;

use crate::control::{
    address_text, all_faithful, checks, is_place, record_text, stray, surveys, told_in, turn_text,
    unknown_in, Address, Found, Sheet, Turn, CONTROL_SCHEMA_VERSION,
};
use crate::json::{escape, escaped, json_member, json_object, json_string};
use crate::json_read::{
    faithful, fits, json_fault, json_node, look, member_at, members_text, pointer_of, tree_text,
    NodeText, Tree, READ_DEPTH,
};
use crate::text::{decimal, digit_of, plain_name, separated};

verus! {

pub(crate) proof fn digits_are_told_apart(a: nat, b: nat)
    requires
        a < 16,
        b < 16,
        digit_of(a) == digit_of(b),
    ensures
        a == b,
{
    assert(digit_of(a) as u32 == if a < 10 {
        48 + a
    } else {
        87 + a
    });
    assert(digit_of(b) as u32 == if b < 10 {
        48 + b
    } else {
        87 + b
    });
}

/// One written character says which character it was, whatever follows it.
proof fn a_character_reads_one_way(a: char, b: char, u: Seq<char>, v: Seq<char>)
    requires
        escape(a) + u == escape(b) + v,
    ensures
        a == b,
        u == v,
{
    let left = escape(a) + u;
    let right = escape(b) + v;
    char_u32_cast(a, a as u32);
    char_u32_cast(b, b as u32);
    assert(left[0] == escape(a)[0]);
    assert(right[0] == escape(b)[0]);
    assert(escape(a).len() == escape(b).len() && a == b) by {
        if escape(a).len() == 1 || escape(b).len() == 1 {
        } else {
            assert(left[1] == escape(a)[1]);
            assert(right[1] == escape(b)[1]);
            if escape(a).len() == 6 && escape(b).len() == 6 {
                assert(left[4] == escape(a)[4]);
                assert(right[4] == escape(b)[4]);
                assert(left[5] == escape(a)[5]);
                assert(right[5] == escape(b)[5]);
                digits_are_told_apart((a as u32 / 16) as nat, (b as u32 / 16) as nat);
                digits_are_told_apart((a as u32 % 16) as nat, (b as u32 % 16) as nat);
                assert(a as u32 == b as u32);
            }
        }
    }
    let width = escape(a).len() as int;
    assert(left.skip(width) =~= u);
    assert(right.skip(width) =~= v);
}

proof fn escaping_goes_from_the_front(text: Seq<char>)
    requires
        text.len() > 0,
    ensures
        escaped(text) == escape(text[0]) + escaped(text.drop_first()),
    decreases text.len(),
{
    if text.len() == 1 {
        assert(text.drop_last() =~= seq![]);
        assert(text.drop_first() =~= seq![]);
        assert(escaped(text) =~= escape(text[0]) + escaped(text.drop_first()));
    } else {
        escaping_goes_from_the_front(text.drop_last());
        assert(text.drop_last().drop_first() =~= text.drop_first().drop_last());
        assert(text.drop_last()[0] == text[0]);
        assert(escaped(text) =~= escape(text[0]) + escaped(text.drop_first()));
    }
}

proof fn an_escaped_text_reads_one_way(s: Seq<char>, t: Seq<char>, x: Seq<char>, y: Seq<char>)
    requires
        escaped(s) + (seq!['"'] + x) == escaped(t) + (seq!['"'] + y),
    ensures
        s == t,
        x == y,
    decreases s.len(),
{
    let left = escaped(s) + (seq!['"'] + x);
    let right = escaped(t) + (seq!['"'] + y);
    if s.len() > 0 {
        escaping_goes_from_the_front(s);
        assert(left =~= escape(s[0]) + (escaped(s.drop_first()) + (seq!['"'] + x)));
        assert(left[0] == escape(s[0])[0]);
    } else {
        assert(left =~= seq!['"'] + x);
        assert(left[0] == '"');
    }
    if t.len() > 0 {
        escaping_goes_from_the_front(t);
        assert(right =~= escape(t[0]) + (escaped(t.drop_first()) + (seq!['"'] + y)));
        assert(right[0] == escape(t[0])[0]);
    } else {
        assert(right =~= seq!['"'] + y);
        assert(right[0] == '"');
    }
    if s.len() > 0 && t.len() > 0 {
        a_character_reads_one_way(
            s[0],
            t[0],
            escaped(s.drop_first()) + (seq!['"'] + x),
            escaped(t.drop_first()) + (seq!['"'] + y),
        );
        an_escaped_text_reads_one_way(s.drop_first(), t.drop_first(), x, y);
        assert(s =~= seq![s[0]] + s.drop_first());
        assert(t =~= seq![t[0]] + t.drop_first());
    } else {
        assert(s.len() == 0 && t.len() == 0);
        assert(s =~= t);
        assert(left.skip(1) =~= x);
        assert(right.skip(1) =~= y);
    }
}

/// A JSON string says which text it was and where it ended, whatever follows it.
pub proof fn a_json_string_reads_one_way(s: Seq<char>, t: Seq<char>, x: Seq<char>, y: Seq<char>)
    requires
        json_string(s) + x == json_string(t) + y,
    ensures
        s == t,
        x == y,
{
    let left = json_string(s) + x;
    let right = json_string(t) + y;
    assert(left.skip(1) =~= escaped(s) + (seq!['"'] + x));
    assert(right.skip(1) =~= escaped(t) + (seq!['"'] + y));
    an_escaped_text_reads_one_way(s, t, x, y);
}

proof fn a_shared_front_is_dropped(front: Seq<char>, x: Seq<char>, y: Seq<char>)
    requires
        front + x == front + y,
    ensures
        x == y,
{
    assert((front + x).skip(front.len() as int) =~= x);
    assert((front + y).skip(front.len() as int) =~= y);
}

proof fn grouped(a: Seq<char>, b: Seq<char>, c: Seq<char>)
    ensures
        (a + b) + c == a + (b + c),
{
    assert((a + b) + c =~= a + (b + c));
}

/// A member of an object, and what follows it.
spec fn member_then(key: Seq<char>, value: Seq<char>, rest: Seq<char>) -> Seq<char> {
    json_string(key) + (":"@ + (value + rest))
}

proof fn a_member_in_front(key: Seq<char>, value: Seq<char>, rest: Seq<char>)
    ensures
        json_member(key, value) + rest == member_then(key, value, rest),
{
    grouped(json_string(key) + ":"@, value, rest);
    grouped(json_string(key), ":"@, value + rest);
}

proof fn two_members(k1: Seq<char>, v1: Seq<char>, k2: Seq<char>, v2: Seq<char>)
    ensures
        json_object(seq![json_member(k1, v1), json_member(k2, v2)]) == "{"@ + member_then(
            k1,
            v1,
            ","@ + member_then(k2, v2, "}"@),
        ),
{
    let first = json_member(k1, v1);
    let second = json_member(k2, v2);
    let members = seq![first, second];
    reveal_with_fuel(separated, 3);
    assert(members.drop_last() =~= seq![first]);
    assert(separated(members, ","@) == first + ","@ + second);
    grouped("{"@, first + ","@ + second, "}"@);
    grouped(first + ","@, second, "}"@);
    grouped(first, ","@, second + "}"@);
    a_member_in_front(k2, v2, "}"@);
    a_member_in_front(k1, v1, ","@ + member_then(k2, v2, "}"@));
}

proof fn three_members(
    k1: Seq<char>,
    v1: Seq<char>,
    k2: Seq<char>,
    v2: Seq<char>,
    k3: Seq<char>,
    v3: Seq<char>,
)
    ensures
        json_object(seq![json_member(k1, v1), json_member(k2, v2), json_member(k3, v3)]) == "{"@
            + member_then(
            k1,
            v1,
            ","@ + member_then(k2, v2, ","@ + member_then(k3, v3, "}"@)),
        ),
{
    let first = json_member(k1, v1);
    let second = json_member(k2, v2);
    let third = json_member(k3, v3);
    let members = seq![first, second, third];
    reveal_with_fuel(separated, 4);
    assert(members.drop_last() =~= seq![first, second]);
    assert(members.drop_last().drop_last() =~= seq![first]);
    assert(separated(members, ","@) == first + ","@ + second + ","@ + third);
    grouped("{"@, first + ","@ + second + ","@ + third, "}"@);
    grouped(first + ","@ + second + ","@, third, "}"@);
    grouped(first + ","@ + second, ","@, third + "}"@);
    grouped(first + ","@, second, ","@ + (third + "}"@));
    grouped(first, ","@, second + (","@ + (third + "}"@)));
    a_member_in_front(k3, v3, "}"@);
    a_member_in_front(k2, v2, ","@ + member_then(k3, v3, "}"@));
    a_member_in_front(k1, v1, ","@ + member_then(k2, v2, ","@ + member_then(k3, v3, "}"@)));
}

/// What an address's JSON says after its session.
spec fn after_session(address: Address) -> Seq<char> {
    let place = member_then("cwd"@, json_string(address.cwd@), "}"@);
    match address.session_dir {
        Some(dir) => ","@ + member_then("session_dir"@, json_string(dir@), ","@ + place),
        None => ","@ + place,
    }
}

proof fn an_address_in_order(address: Address)
    ensures
        address_text(address) == "{"@ + member_then(
            "session"@,
            json_string(address.session@),
            after_session(address),
        ),
{
    let session = json_member("session"@, json_string(address.session@));
    let cwd = json_member("cwd"@, json_string(address.cwd@));
    match address.session_dir {
        Some(dir) => {
            let store = json_member("session_dir"@, json_string(dir@));
            assert(seq![session] + seq![store] + seq![cwd] =~= seq![session, store, cwd]);
            three_members(
                "session"@,
                json_string(address.session@),
                "session_dir"@,
                json_string(dir@),
                "cwd"@,
                json_string(address.cwd@),
            );
        },
        None => {
            assert(seq![session] + Seq::<Seq<char>>::empty() + seq![cwd] =~= seq![session, cwd]);
            two_members(
                "session"@,
                json_string(address.session@),
                "cwd"@,
                json_string(address.cwd@),
            );
        },
    }
}

proof fn a_place_reads_one_way(a: Seq<char>, b: Seq<char>, x: Seq<char>, y: Seq<char>)
    requires
        member_then("cwd"@, json_string(a), "}"@) + x == member_then("cwd"@, json_string(b), "}"@)
            + y,
    ensures
        a == b,
        x == y,
{
    let key = json_string("cwd"@);
    grouped(key, ":"@ + (json_string(a) + "}"@), x);
    grouped(key, ":"@ + (json_string(b) + "}"@), y);
    grouped(":"@, json_string(a) + "}"@, x);
    grouped(":"@, json_string(b) + "}"@, y);
    grouped(json_string(a), "}"@, x);
    grouped(json_string(b), "}"@, y);
    a_shared_front_is_dropped(
        key,
        ":"@ + (json_string(a) + ("}"@ + x)),
        ":"@ + (json_string(b) + ("}"@ + y)),
    );
    a_shared_front_is_dropped(
        ":"@,
        json_string(a) + ("}"@ + x),
        json_string(b) + ("}"@ + y),
    );
    a_json_string_reads_one_way(a, b, "}"@ + x, "}"@ + y);
    a_shared_front_is_dropped("}"@, x, y);
}

/// What follows a comma: a member's key, and then the rest.
proof fn a_key_in_front(key: Seq<char>, value: Seq<char>, rest: Seq<char>, x: Seq<char>)
    ensures
        (","@ + member_then(key, value, rest)) + x == ","@ + (json_string(key) + (":"@ + (value + (
        rest + x)))),
{
    grouped(","@, member_then(key, value, rest), x);
    grouped(json_string(key), ":"@ + (value + rest), x);
    grouped(":"@, value + rest, x);
    grouped(value, rest, x);
}

proof fn what_follows_a_session_reads_one_way(a: Address, b: Address, x: Seq<char>, y: Seq<char>)
    requires
        after_session(a) + x == after_session(b) + y,
    ensures
        crate::text::text_of(a.session_dir) == crate::text::text_of(b.session_dir),
        a.cwd@ == b.cwd@,
        x == y,
{
    let a_place = member_then("cwd"@, json_string(a.cwd@), "}"@);
    let b_place = member_then("cwd"@, json_string(b.cwd@), "}"@);
    let a_key = if a.session_dir is Some { "session_dir"@ } else { "cwd"@ };
    let b_key = if b.session_dir is Some { "session_dir"@ } else { "cwd"@ };
    let a_value = match a.session_dir {
        Some(dir) => json_string(dir@),
        None => json_string(a.cwd@),
    };
    let b_value = match b.session_dir {
        Some(dir) => json_string(dir@),
        None => json_string(b.cwd@),
    };
    let a_rest = if a.session_dir is Some { ","@ + a_place } else { "}"@ };
    let b_rest = if b.session_dir is Some { ","@ + b_place } else { "}"@ };
    a_key_in_front(a_key, a_value, a_rest, x);
    a_key_in_front(b_key, b_value, b_rest, y);
    let a_on = ":"@ + (a_value + (a_rest + x));
    let b_on = ":"@ + (b_value + (b_rest + y));
    a_shared_front_is_dropped(","@, json_string(a_key) + a_on, json_string(b_key) + b_on);
    a_json_string_reads_one_way(a_key, b_key, a_on, b_on);
    reveal_strlit("session_dir");
    reveal_strlit("cwd");
    assert("session_dir"@.len() != "cwd"@.len());
    a_shared_front_is_dropped(":"@, a_value + (a_rest + x), b_value + (b_rest + y));
    if a.session_dir is Some {
        let d = a.session_dir->0@;
        let e = b.session_dir->0@;
        a_json_string_reads_one_way(d, e, a_rest + x, b_rest + y);
        grouped(","@, a_place, x);
        grouped(","@, b_place, y);
        a_shared_front_is_dropped(","@, a_place + x, b_place + y);
        a_place_reads_one_way(a.cwd@, b.cwd@, x, y);
    } else {
        a_json_string_reads_one_way(a.cwd@, b.cwd@, a_rest + x, b_rest + y);
        a_shared_front_is_dropped("}"@, x, y);
    }
}

proof fn an_address_reads_one_way(a: Address, b: Address, x: Seq<char>, y: Seq<char>)
    requires
        address_text(a) + x == address_text(b) + y,
    ensures
        a.session@ == b.session@,
        crate::text::text_of(a.session_dir) == crate::text::text_of(b.session_dir),
        a.cwd@ == b.cwd@,
        x == y,
{
    an_address_in_order(a);
    an_address_in_order(b);
    let key = json_string("session"@);
    let s = json_string(a.session@);
    let t = json_string(b.session@);
    let a_more = after_session(a);
    let b_more = after_session(b);
    grouped("{"@, member_then("session"@, s, a_more), x);
    grouped("{"@, member_then("session"@, t, b_more), y);
    grouped(key, ":"@ + (s + a_more), x);
    grouped(key, ":"@ + (t + b_more), y);
    grouped(":"@, s + a_more, x);
    grouped(":"@, t + b_more, y);
    grouped(s, a_more, x);
    grouped(t, b_more, y);
    a_shared_front_is_dropped(
        "{"@,
        key + (":"@ + (s + (a_more + x))),
        key + (":"@ + (t + (b_more + y))),
    );
    a_shared_front_is_dropped(key, ":"@ + (s + (a_more + x)), ":"@ + (t + (b_more + y)));
    a_shared_front_is_dropped(":"@, s + (a_more + x), t + (b_more + y));
    a_json_string_reads_one_way(a.session@, b.session@, a_more + x, b_more + y);
    what_follows_a_session_reads_one_way(a, b, x, y);
}

spec fn state_of(turn: Turn) -> Seq<char> {
    match turn {
        Turn::Open { .. } => "open"@,
        Turn::Unavailable { .. } => "unavailable"@,
    }
}

/// What a turn's JSON says after its state.
spec fn after_state(turn: Turn) -> Seq<char> {
    ","@ + match turn {
        Turn::Open { address } => member_then("address"@, address_text(address), "}"@),
        Turn::Unavailable { reason } => member_then("reason"@, json_string(reason@), "}"@),
    }
}

proof fn a_turn_in_order(turn: Turn)
    ensures
        turn_text(turn) == "{"@ + member_then(
            "state"@,
            json_string(state_of(turn)),
            after_state(turn),
        ),
{
    match turn {
        Turn::Open { address } => {
            two_members("state"@, json_string("open"@), "address"@, address_text(address));
        },
        Turn::Unavailable { reason } => {
            two_members(
                "state"@,
                json_string("unavailable"@),
                "reason"@,
                json_string(reason@),
            );
        },
    }
}

proof fn a_turn_reads_one_way(a: Turn, b: Turn)
    requires
        turn_text(a) == turn_text(b),
    ensures
        a@ == b@,
{
    a_turn_in_order(a);
    a_turn_in_order(b);
    let key = json_string("state"@);
    let s = json_string(state_of(a));
    let t = json_string(state_of(b));
    a_shared_front_is_dropped(
        "{"@,
        key + (":"@ + (s + after_state(a))),
        key + (":"@ + (t + after_state(b))),
    );
    a_shared_front_is_dropped(key, ":"@ + (s + after_state(a)), ":"@ + (t + after_state(b)));
    a_shared_front_is_dropped(":"@, s + after_state(a), t + after_state(b));
    a_json_string_reads_one_way(state_of(a), state_of(b), after_state(a), after_state(b));
    reveal_strlit("open");
    reveal_strlit("unavailable");
    assert("open"@.len() != "unavailable"@.len());
    match (a, b) {
        (Turn::Open { address: x }, Turn::Open { address: y }) => {
            let left = address_text(x) + "}"@;
            let right = address_text(y) + "}"@;
            a_shared_front_is_dropped(
                ","@,
                json_string("address"@) + (":"@ + left),
                json_string("address"@) + (":"@ + right),
            );
            a_shared_front_is_dropped(json_string("address"@), ":"@ + left, ":"@ + right);
            a_shared_front_is_dropped(":"@, left, right);
            an_address_reads_one_way(x, y, "}"@, "}"@);
        },
        (Turn::Unavailable { reason: x }, Turn::Unavailable { reason: y }) => {
            let left = json_string(x@) + "}"@;
            let right = json_string(y@) + "}"@;
            a_shared_front_is_dropped(
                ","@,
                json_string("reason"@) + (":"@ + left),
                json_string("reason"@) + (":"@ + right),
            );
            a_shared_front_is_dropped(json_string("reason"@), ":"@ + left, ":"@ + right);
            a_shared_front_is_dropped(":"@, left, right);
            a_json_string_reads_one_way(x@, y@, "}"@, "}"@);
        },
        _ => {},
    }
}

/// What a run writes about a member's turn says which turn it was: no two turns are
/// written alike, so a record that is read back can only be the turn that was
/// written.
pub proof fn a_record_reads_one_way(a: Turn, b: Turn)
    requires
        record_text(a) == record_text(b),
    ensures
        a@ == b@,
{
    let version = decimal(CONTROL_SCHEMA_VERSION as nat);
    two_members("schema_version"@, version, "turn"@, turn_text(a));
    two_members("schema_version"@, version, "turn"@, turn_text(b));
    let key = json_string("schema_version"@);
    let turn_key = json_string("turn"@);
    let left = turn_text(a) + "}"@;
    let right = turn_text(b) + "}"@;
    let a_rest = ","@ + (turn_key + (":"@ + left));
    let b_rest = ","@ + (turn_key + (":"@ + right));
    a_shared_front_is_dropped(
        "{"@,
        key + (":"@ + (version + a_rest)),
        key + (":"@ + (version + b_rest)),
    );
    a_shared_front_is_dropped(key, ":"@ + (version + a_rest), ":"@ + (version + b_rest));
    a_shared_front_is_dropped(":"@, version + a_rest, version + b_rest);
    a_shared_front_is_dropped(version, a_rest, b_rest);
    a_shared_front_is_dropped(","@, turn_key + (":"@ + left), turn_key + (":"@ + right));
    a_shared_front_is_dropped(turn_key, ":"@ + left, ":"@ + right);
    a_shared_front_is_dropped(":"@, left, right);
    reveal_strlit("}");
    assert(left.drop_last() =~= turn_text(a));
    assert(right.drop_last() =~= turn_text(b));
    a_turn_reads_one_way(a, b);
}

// ---- A record read back ----
/// A turn's document.
pub open spec fn turn_tree(turn: Turn) -> Tree {
    match turn {
        Turn::Open { address } => Tree::Object(
            seq![
                ("state"@, Tree::Text("open"@)),
                ("address"@, Tree::Object(address_members(address))),
            ],
        ),
        Turn::Unavailable { reason } => Tree::Object(
            seq![
                ("state"@, Tree::Text("unavailable"@)),
                ("reason"@, Tree::Text(reason@)),
            ],
        ),
    }
}

/// The members of an address's document.
pub open spec fn address_members(address: Address) -> Seq<(Seq<char>, Tree)> {
    match address.session_dir {
        Some(dir) => seq![
            ("session"@, Tree::Text(address.session@)),
            ("session_dir"@, Tree::Text(dir@)),
            ("cwd"@, Tree::Text(address.cwd@)),
        ],
        None => seq![
            ("session"@, Tree::Text(address.session@)),
            ("cwd"@, Tree::Text(address.cwd@)),
        ],
    }
}

/// The document of the record a run writes about a turn.
pub open spec fn record_tree(turn: Turn) -> Tree {
    Tree::Object(
        seq![
            ("schema_version"@, Tree::Count(CONTROL_SCHEMA_VERSION as u64)),
            ("turn"@, turn_tree(turn)),
        ],
    )
}

proof fn literals()
    ensures
        "schema_version"@.len() == 14,
        "turn"@.len() == 4,
        "state"@.len() == 5,
        "address"@.len() == 7,
        "reason"@.len() == 6,
        "session"@.len() == 7,
        "session_dir"@.len() == 11,
        "cwd"@.len() == 3,
        "open"@.len() == 4,
        "unavailable"@.len() == 11,
{
    reveal_strlit("schema_version");
    reveal_strlit("turn");
    reveal_strlit("state");
    reveal_strlit("address");
    reveal_strlit("reason");
    reveal_strlit("session");
    reveal_strlit("session_dir");
    reveal_strlit("cwd");
    reveal_strlit("open");
    reveal_strlit("unavailable");
}

proof fn an_address_is_its_document(address: Address)
    ensures
        tree_text(Tree::Object(address_members(address))) == address_text(address),
{
    let members = address_members(address);
    reveal_with_fuel(members_text, 4);
    let written = members_text(members, members.len());
    let session = json_member("session"@, json_string(address.session@));
    let cwd = json_member("cwd"@, json_string(address.cwd@));
    let store = match address.session_dir {
        Some(dir) => seq![json_member("session_dir"@, json_string(dir@))],
        None => seq![],
    };
    assert(tree_text(members[0].1) == json_string(address.session@));
    assert(tree_text(members.last().1) == json_string(address.cwd@));
    if let Some(dir) = address.session_dir {
        assert(tree_text(members[1].1) == json_string(dir@));
    }
    assert(written =~= seq![session] + store + seq![cwd]);
}

proof fn a_turn_is_its_document(turn: Turn)
    ensures
        tree_text(turn_tree(turn)) == turn_text(turn),
{
    let members = turn_tree(turn)->Object_0;
    reveal_with_fuel(members_text, 4);
    let written = members_text(members, members.len());
    match turn {
        Turn::Open { address } => {
            an_address_is_its_document(address);
            assert(tree_text(members[0].1) == json_string("open"@));
            assert(written =~= seq![
                json_member("state"@, json_string("open"@)),
                json_member("address"@, address_text(address)),
            ]);
        },
        Turn::Unavailable { reason } => {
            assert(tree_text(members[0].1) == json_string("unavailable"@));
            assert(tree_text(members[1].1) == json_string(reason@));
            assert(written =~= seq![
                json_member("state"@, json_string("unavailable"@)),
                json_member("reason"@, json_string(reason@)),
            ]);
        },
    }
}

proof fn a_record_is_its_document(turn: Turn)
    ensures
        tree_text(record_tree(turn)) == record_text(turn),
        fits(record_tree(turn), READ_DEPTH as nat),
{
    literals();
    keys_are_plain();
    a_turn_is_its_document(turn);
    let members = record_tree(turn)->Object_0;
    reveal_with_fuel(members_text, 4);
    let written = members_text(members, members.len());
    assert(tree_text(members[0].1) == decimal(CONTROL_SCHEMA_VERSION as nat));
    assert(written =~= seq![
        json_member("schema_version"@, decimal(CONTROL_SCHEMA_VERSION as nat)),
        json_member("turn"@, turn_text(turn)),
    ]);
    reveal_with_fuel(fits, 4);
    match turn {
        Turn::Open { address } => {
            assert(fits(Tree::Object(address_members(address)), 98));
            assert(fits(turn_tree(turn), 99));
        },
        Turn::Unavailable { .. } => {
            assert(fits(turn_tree(turn), 99));
        },
    }
}

/// The path of keys a place of a record's document is at.
pub open spec fn path_to(pointer: Seq<char>) -> Seq<Seq<char>> {
    if pointer == ""@ {
        seq![]
    } else if pointer == "/schema_version"@ {
        seq!["schema_version"@]
    } else if pointer == "/turn"@ {
        seq!["turn"@]
    } else if pointer == "/turn/state"@ {
        seq!["turn"@, "state"@]
    } else if pointer == "/turn/address"@ {
        seq!["turn"@, "address"@]
    } else if pointer == "/turn/address/session"@ {
        seq!["turn"@, "address"@, "session"@]
    } else if pointer == "/turn/address/session_dir"@ {
        seq!["turn"@, "address"@, "session_dir"@]
    } else if pointer == "/turn/address/cwd"@ {
        seq!["turn"@, "address"@, "cwd"@]
    } else {
        seq!["turn"@, "reason"@]
    }
}

proof fn keys_are_plain()
    ensures
        plain_name("schema_version"@),
        plain_name("turn"@),
        plain_name("state"@),
        plain_name("address"@),
        plain_name("reason"@),
        plain_name("session"@),
        plain_name("session_dir"@),
        plain_name("cwd"@),
{
    reveal_strlit("schema_version");
    reveal_strlit("turn");
    reveal_strlit("state");
    reveal_strlit("address");
    reveal_strlit("reason");
    reveal_strlit("session");
    reveal_strlit("session_dir");
    reveal_strlit("cwd");
}

proof fn one_key(first: Seq<char>)
    ensures
        pointer_of(seq![first]) == "/"@ + first,
{
    reveal_with_fuel(pointer_of, 2);
    assert(seq![first].drop_last() =~= seq![]);
    assert(pointer_of(seq![first]) =~= "/"@ + first);
}

proof fn two_keys(first: Seq<char>, second: Seq<char>)
    ensures
        pointer_of(seq![first, second]) == "/"@ + first + "/"@ + second,
{
    one_key(first);
    assert(seq![first, second].drop_last() =~= seq![first]);
}

proof fn three_keys(first: Seq<char>, second: Seq<char>, third: Seq<char>)
    ensures
        pointer_of(seq![first, second, third]) == "/"@ + first + "/"@ + second + "/"@ + third,
{
    two_keys(first, second);
    assert(seq![first, second, third].drop_last() =~= seq![first, second]);
}

proof fn a_place_has_its_pointer(pointer: Seq<char>)
    requires
        is_place(pointer),
    ensures
        pointer == pointer_of(path_to(pointer)),
        forall|i: int|
            0 <= i < path_to(pointer).len() ==> plain_name(#[trigger] path_to(pointer)[i]),
{
    keys_are_plain();
    reveal_strlit("");
    reveal_strlit("/");
    reveal_strlit("schema_version");
    reveal_strlit("turn");
    reveal_strlit("state");
    reveal_strlit("address");
    reveal_strlit("reason");
    reveal_strlit("session");
    reveal_strlit("session_dir");
    reveal_strlit("cwd");
    if pointer == ""@ {
        assert(pointer =~= seq![]);
    } else if pointer == "/schema_version"@ {
        reveal_strlit("/schema_version");
        one_key("schema_version"@);
        assert("/schema_version"@ =~= "/"@ + "schema_version"@);
    } else if pointer == "/turn"@ {
        reveal_strlit("/turn");
        one_key("turn"@);
        assert("/turn"@ =~= "/"@ + "turn"@);
    } else if pointer == "/turn/state"@ {
        reveal_strlit("/turn/state");
        two_keys("turn"@, "state"@);
        assert("/turn/state"@ =~= "/"@ + "turn"@ + "/"@ + "state"@);
    } else if pointer == "/turn/address"@ {
        reveal_strlit("/turn/address");
        two_keys("turn"@, "address"@);
        assert("/turn/address"@ =~= "/"@ + "turn"@ + "/"@ + "address"@);
    } else if pointer == "/turn/address/session"@ {
        reveal_strlit("/turn/address/session");
        three_keys("turn"@, "address"@, "session"@);
        assert("/turn/address/session"@ =~= "/"@ + "turn"@ + "/"@ + "address"@ + "/"@
            + "session"@);
    } else if pointer == "/turn/address/session_dir"@ {
        reveal_strlit("/turn/address/session_dir");
        three_keys("turn"@, "address"@, "session_dir"@);
        assert("/turn/address/session_dir"@ =~= "/"@ + "turn"@ + "/"@ + "address"@ + "/"@
            + "session_dir"@);
    } else if pointer == "/turn/address/cwd"@ {
        reveal_strlit("/turn/address/cwd");
        three_keys("turn"@, "address"@, "cwd"@);
        assert("/turn/address/cwd"@ =~= "/"@ + "turn"@ + "/"@ + "address"@ + "/"@ + "cwd"@);
    } else {
        reveal_strlit("/turn/reason");
        two_keys("turn"@, "reason"@);
        assert("/turn/reason"@ =~= "/"@ + "turn"@ + "/"@ + "reason"@);
    }
}

/// What a run wrote about a turn is found at every place of its record.
pub(crate) proof fn a_written_record_can_be_looked_at(
    raw: Seq<char>,
    turn: Turn,
    pointer: Seq<char>,
)
    requires
        raw == record_text(turn),
        is_place(pointer),
        faithful(raw, pointer),
    ensures
        json_fault(raw) is None,
        json_node(raw, pointer) == look(record_tree(turn), path_to(pointer)),
{
    a_record_is_its_document(turn);
    a_place_has_its_pointer(pointer);
    assert(raw == tree_text(record_tree(turn)));
}

proof fn later_member(members: Seq<(Seq<char>, Tree)>, at: int, key: Seq<char>)
    requires
        0 <= at <= members.len(),
        forall|i: int| 0 <= i < at ==> (#[trigger] members[i]).0 != key,
    ensures
        member_at(members, key) == member_at(members.skip(at), key),
    decreases at,
{
    if at == 0 {
        assert(members.skip(0) =~= members);
    } else {
        let rest = members.drop_first();
        assert forall|i: int| 0 <= i < at - 1 implies (#[trigger] rest[i]).0 != key by {
            assert(members[i + 1].0 != key);
        }
        assert(members[0].0 != key);
        later_member(rest, at - 1, key);
        assert(rest.skip(at - 1) =~= members.skip(at));
    }
}

/// What an object holds under the key of one of its members, where no earlier one
/// has it.
proof fn held_at(members: Seq<(Seq<char>, Tree)>, at: int, key: Seq<char>)
    requires
        0 <= at < members.len(),
        members[at].0 == key,
        forall|i: int| 0 <= i < at ==> (#[trigger] members[i]).0 != key,
    ensures
        member_at(members, key) == Some(members[at].1),
{
    later_member(members, at, key);
    assert(members.skip(at)[0] == members[at]);
}

/// What an object holds under a key that none of its members has.
proof fn held_nowhere(members: Seq<(Seq<char>, Tree)>, key: Seq<char>)
    requires
        forall|i: int| 0 <= i < members.len() ==> (#[trigger] members[i]).0 != key,
    ensures
        member_at(members, key) is None,
{
    later_member(members, members.len() as int, key);
}

/// A step along a path of keys.
proof fn a_step(tree: Tree, key: Seq<char>, rest: Seq<Seq<char>>)
    ensures
        look(tree, seq![key] + rest) == (match tree {
            Tree::Object(members) => match member_at(members, key) {
                Some(member) => look(member, rest),
                None => NodeText::Missing,
            },
            _ => NodeText::Missing,
        }),
{
    assert((seq![key] + rest).drop_first() =~= rest);
}

proof fn an_address_is_looked_up(address: Address)
    ensures
        ({
            let tree = Tree::Object(address_members(address));
            &&& look(tree, seq!["session"@]) == NodeText::Text(address.session@)
            &&& look(tree, seq!["cwd"@]) == NodeText::Text(address.cwd@)
            &&& look(tree, seq!["session_dir"@]) == (match address.session_dir {
                Some(dir) => NodeText::Text(dir@),
                None => NodeText::Missing,
            })
            &&& look(tree, seq![]) == NodeText::Object(
                match address.session_dir {
                    Some(_) => seq!["session"@, "session_dir"@, "cwd"@],
                    None => seq!["session"@, "cwd"@],
                },
            )
        }),
{
    literals();
    let members = address_members(address);
    let tree = Tree::Object(members);
    let none = Seq::<Seq<char>>::empty();
    a_step(tree, "session"@, none);
    a_step(tree, "cwd"@, none);
    a_step(tree, "session_dir"@, none);
    assert(seq!["session"@] + none =~= seq!["session"@]);
    assert(seq!["cwd"@] + none =~= seq!["cwd"@]);
    assert(seq!["session_dir"@] + none =~= seq!["session_dir"@]);
    let keys = members.map_values(|member: (Seq<char>, Tree)| member.0);
    held_at(members, 0, "session"@);
    match address.session_dir {
        Some(_) => {
            held_at(members, 1, "session_dir"@);
            held_at(members, 2, "cwd"@);
            assert(keys =~= seq!["session"@, "session_dir"@, "cwd"@]);
        },
        None => {
            held_nowhere(members, "session_dir"@);
            held_at(members, 1, "cwd"@);
            assert(keys =~= seq!["session"@, "cwd"@]);
        },
    }
}

proof fn a_turn_is_looked_up(turn: Turn)
    ensures
        ({
            let tree = turn_tree(turn);
            match turn {
                Turn::Open { address } => {
                    let held = Tree::Object(address_members(address));
                    &&& look(tree, seq![]) == NodeText::Object(seq!["state"@, "address"@])
                    &&& look(tree, seq!["state"@]) == NodeText::Text("open"@)
                    &&& look(tree, seq!["address"@]) == look(held, seq![])
                    &&& look(tree, seq!["address"@, "session"@]) == look(held, seq!["session"@])
                    &&& look(tree, seq!["address"@, "session_dir"@]) == look(
                        held,
                        seq!["session_dir"@],
                    )
                    &&& look(tree, seq!["address"@, "cwd"@]) == look(held, seq!["cwd"@])
                },
                Turn::Unavailable { reason } => {
                    &&& look(tree, seq![]) == NodeText::Object(seq!["state"@, "reason"@])
                    &&& look(tree, seq!["state"@]) == NodeText::Text("unavailable"@)
                    &&& look(tree, seq!["reason"@]) == NodeText::Text(reason@)
                },
            }
        }),
{
    literals();
    let tree = turn_tree(turn);
    let members = tree->Object_0;
    let none = Seq::<Seq<char>>::empty();
    let keys = members.map_values(|member: (Seq<char>, Tree)| member.0);
    held_at(members, 0, "state"@);
    a_step(tree, "state"@, none);
    assert(seq!["state"@] + none =~= seq!["state"@]);
    match turn {
        Turn::Open { address } => {
            held_at(members, 1, "address"@);
            assert(keys =~= seq!["state"@, "address"@]);
            a_step(tree, "address"@, none);
            a_step(tree, "address"@, seq!["session"@]);
            a_step(tree, "address"@, seq!["session_dir"@]);
            a_step(tree, "address"@, seq!["cwd"@]);
            assert(seq!["address"@] + none =~= seq!["address"@]);
            assert(seq!["address"@] + seq!["session"@] =~= seq!["address"@, "session"@]);
            assert(seq!["address"@] + seq!["session_dir"@] =~= seq!["address"@, "session_dir"@]);
            assert(seq!["address"@] + seq!["cwd"@] =~= seq!["address"@, "cwd"@]);
        },
        Turn::Unavailable { .. } => {
            held_at(members, 1, "reason"@);
            assert(keys =~= seq!["state"@, "reason"@]);
            a_step(tree, "reason"@, none);
            assert(seq!["reason"@] + none =~= seq!["reason"@]);
        },
    }
}

proof fn a_record_is_looked_up(turn: Turn)
    ensures
        ({
            let tree = record_tree(turn);
            &&& look(tree, seq![]) == NodeText::Object(seq!["schema_version"@, "turn"@])
            &&& look(tree, seq!["schema_version"@]) == NodeText::Count(
                CONTROL_SCHEMA_VERSION as u64,
            )
            &&& look(tree, seq!["turn"@]) == look(turn_tree(turn), seq![])
        }),
        forall|rest: Seq<Seq<char>>|
            look(record_tree(turn), seq!["turn"@] + rest) == #[trigger] look(turn_tree(turn), rest),
{
    literals();
    let tree = record_tree(turn);
    let members = tree->Object_0;
    let none = Seq::<Seq<char>>::empty();
    let keys = members.map_values(|member: (Seq<char>, Tree)| member.0);
    assert(keys =~= seq!["schema_version"@, "turn"@]);
    held_at(members, 0, "schema_version"@);
    held_at(members, 1, "turn"@);
    a_step(tree, "schema_version"@, none);
    assert(seq!["schema_version"@] + none =~= seq!["schema_version"@]);
    a_step(tree, "turn"@, none);
    assert(seq!["turn"@] + none =~= seq!["turn"@]);
    assert forall|rest: Seq<Seq<char>>|
        look(tree, seq!["turn"@] + rest) == #[trigger] look(turn_tree(turn), rest) by {
        a_step(tree, "turn"@, rest);
    }
}

/// The sheet of what a run wrote about a turn holds that turn.
pub(crate) proof fn a_written_record_is_surveyed(raw: Seq<char>, turn: Turn, sheet: Sheet)
    requires
        raw == record_text(turn),
        surveys(sheet, raw),
        all_faithful(raw),
    ensures
        told_in(sheet) == Some(turn@),
{
    literals();
    a_written_record_can_be_looked_at(raw, turn, ""@);
    a_written_record_can_be_looked_at(raw, turn, "/schema_version"@);
    a_written_record_can_be_looked_at(raw, turn, "/turn"@);
    a_written_record_can_be_looked_at(raw, turn, "/turn/state"@);
    a_record_is_looked_up(turn);
    a_turn_is_looked_up(turn);
    paths_of_places();
    let inner = turn_tree(turn);
    assert(seq!["turn"@] + seq!["state"@] =~= seq!["turn"@, "state"@]);
    assert(look(inner, seq!["state"@]) == look(record_tree(turn), seq!["turn"@, "state"@]));
    match turn {
        Turn::Open { address } => {
            a_written_record_can_be_looked_at(raw, turn, "/turn/address"@);
            a_written_record_can_be_looked_at(raw, turn, "/turn/address/session"@);
            a_written_record_can_be_looked_at(raw, turn, "/turn/address/session_dir"@);
            a_written_record_can_be_looked_at(raw, turn, "/turn/address/cwd"@);
            an_address_is_looked_up(address);
            assert(seq!["turn"@] + seq!["address"@] =~= seq!["turn"@, "address"@]);
            assert(seq!["turn"@] + seq!["address"@, "session"@] =~= seq![
                "turn"@,
                "address"@,
                "session"@,
            ]);
            assert(seq!["turn"@] + seq!["address"@, "session_dir"@] =~= seq![
                "turn"@,
                "address"@,
                "session_dir"@,
            ]);
            assert(seq!["turn"@] + seq!["address"@, "cwd"@] =~= seq![
                "turn"@,
                "address"@,
                "cwd"@,
            ]);
            assert(look(inner, seq!["address"@]) == sheet.address@);
            assert(look(inner, seq!["address"@, "session"@]) == sheet.session@);
            assert(look(inner, seq!["address"@, "session_dir"@]) == sheet.session_dir@);
            assert(look(inner, seq!["address"@, "cwd"@]) == sheet.cwd@);
        },
        Turn::Unavailable { .. } => {
            a_written_record_can_be_looked_at(raw, turn, "/turn/reason"@);
            assert(seq!["turn"@] + seq!["reason"@] =~= seq!["turn"@, "reason"@]);
            assert(look(inner, seq!["reason"@]) == sheet.reason@);
        },
    }
}

proof fn paths_of_places()
    ensures
        path_to(""@) == Seq::<Seq<char>>::empty(),
        path_to("/schema_version"@) == seq!["schema_version"@],
        path_to("/turn"@) == seq!["turn"@],
        path_to("/turn/state"@) == seq!["turn"@, "state"@],
        path_to("/turn/address"@) == seq!["turn"@, "address"@],
        path_to("/turn/address/session"@) == seq!["turn"@, "address"@, "session"@],
        path_to("/turn/address/session_dir"@) == seq!["turn"@, "address"@, "session_dir"@],
        path_to("/turn/address/cwd"@) == seq!["turn"@, "address"@, "cwd"@],
        path_to("/turn/reason"@) == seq!["turn"@, "reason"@],
{
    reveal_strlit("");
    reveal_strlit("/schema_version");
    reveal_strlit("/turn");
    reveal_strlit("/turn/state");
    reveal_strlit("/turn/address");
    reveal_strlit("/turn/address/session");
    reveal_strlit("/turn/address/session_dir");
    reveal_strlit("/turn/address/cwd");
    reveal_strlit("/turn/reason");
    assert("/schema_version"@.len() == 15);
    assert("/turn"@.len() == 5);
    assert("/turn/state"@.len() == 11);
    assert("/turn/address"@.len() == 13);
    assert("/turn/address/session"@.len() == 21);
    assert("/turn/address/session_dir"@.len() == 25);
    assert("/turn/address/cwd"@.len() == 17);
    assert("/turn/reason"@.len() == 12);
}

proof fn a_stray_is_found(
    keys: Seq<Seq<char>>,
    key: Seq<char>,
    first: Seq<char>,
    second: Seq<char>,
    third: Seq<char>,
)
    requires
        keys.contains(key),
        key != first && key != second && key != third,
    ensures
        stray(keys, first, second, third) is Some,
    decreases keys.len(),
{
    if keys[0] == key {
    } else {
        let at = choose|i: int| 0 <= i < keys.len() && keys[i] == key;
        assert(keys.drop_first()[at - 1] == key);
        if keys[0] == first || keys[0] == second || keys[0] == third {
            a_stray_is_found(keys.drop_first(), key, first, second, third);
        }
    }
}

/// A record with a field this build does not know is refused, at whichever level the
/// field stands and whatever its reader made of it: in the record, in its turn, or in
/// the address of an open one.
pub proof fn an_unknown_field_is_refused(
    outcome: Result<Turn, String>,
    scratch: Seq<char>,
    found: Found,
    key: Seq<char>,
)
    requires
        checks(outcome, scratch, found),
        ({
            let root = json_node(found.raw@, ""@);
            let turn = json_node(found.raw@, "/turn"@);
            let state = json_node(found.raw@, "/turn/state"@);
            let address = json_node(found.raw@, "/turn/address"@);
            ||| root matches NodeText::Object(keys) && keys.contains(key) && key
                != "schema_version"@ && key != "turn"@
            ||| turn matches NodeText::Object(keys) && keys.contains(key) && key != "state"@ && key
                != if state == NodeText::Text("open"@) {
                "address"@
            } else {
                "reason"@
            }
            ||| state == NodeText::Text("open"@) && (address matches NodeText::Object(keys)
                && keys.contains(key) && key != "session"@ && key != "session_dir"@ && key
                != "cwd"@)
        }),
    ensures
        outcome is Err,
{
    if found.record is Ok && json_fault(found.raw@) is None {
        assert forall|sheet: Sheet| #[trigger] surveys(sheet, found.raw@) implies unknown_in(
            sheet,
        ) is Some by {
            if let NodeText::Object(keys) = sheet.root@ {
                if keys.contains(key) && key != "schema_version"@ && key != "turn"@ {
                    a_stray_is_found(keys, key, "schema_version"@, "turn"@, "turn"@);
                }
            }
            if let NodeText::Object(keys) = sheet.turn@ {
                let told = if sheet.state@ == NodeText::Text("open"@) {
                    "address"@
                } else {
                    "reason"@
                };
                if keys.contains(key) && key != "state"@ && key != told {
                    a_stray_is_found(keys, key, "state"@, told, told);
                }
            }
            if let NodeText::Object(keys) = sheet.address@ {
                if keys.contains(key) && key != "session"@ && key != "session_dir"@ && key
                    != "cwd"@ {
                    a_stray_is_found(keys, key, "session"@, "session_dir"@, "cwd"@);
                }
            }
        }
    }
}

/// What is written about a turn is a matter of what the turn says.
pub(crate) proof fn a_record_says_no_more_than_its_turn(a: Turn, b: Turn)
    requires
        a@ == b@,
    ensures
        record_text(a) == record_text(b),
{
    match (a, b) {
        (Turn::Open { address: one }, Turn::Open { address: other }) => {
            assert(address_text(one) == address_text(other)) by {
                match (one.session_dir, other.session_dir) {
                    (Some(left), Some(right)) => {
                        assert(left@ == right@);
                    },
                    _ => {},
                }
            }
        },
        _ => {},
    }
}

} // verus!
