//! Out-of-band turn control: where a member's in-flight turn is addressed, and
//! what the `oneharness interrupt` process that redirects it answered.
//!
//! `cancel` ends a turn and the worker's accumulated context goes with it.
//! `interrupt` redirects a turn that keeps running. The mechanism is oneharness's;
//! what is here is the address a run recorded for one member, and the reading of
//! oneharness's own answer.

use vstd::prelude::*;
use vstd::string::StringExecFns;

use oneharness_core::domain::control::{ControlReason, ControlResponse};

use crate::anchor::{join_path, seen, under};
use crate::error::EXIT_INVALID_CONFIG;
use crate::invoke::GeneratedFile;
use crate::json::{
    json_member, json_object, json_string, write_member, write_object, write_string_member,
};
use crate::json_laws::{
    a_record_says_no_more_than_its_turn, a_written_record_can_be_looked_at,
    a_written_record_is_surveyed,
};
use crate::json_read::{faithful, json_fault, json_node, node_at, Node, NodeText};
use crate::text::{decimal, same, text_of, texts_of, trim, trimmed, write_decimal};

verus! {

/// The file a run records one member's turn control in, inside that member's own
/// scratch.
pub const CONTROL_FILE: &'static str = "control.json";

/// The shape this build writes into every [`Record`].
pub const CONTROL_SCHEMA_VERSION: u32 = 1;

/// The oldest shape this build can read, which is also the first this file ever
/// had.
pub const FIRST_CONTROL_SCHEMA_VERSION: u32 = 1;

/// Where an `oneharness interrupt` process addresses a member's controllable turn.
#[derive(Debug, PartialEq, Eq)]
pub struct Address {
    /// The caller-owned session handle the turn is addressed by.
    pub session: String,
    /// The session store holding the handle and its control socket; absent when
    /// the run left oneharness's own default.
    pub session_dir: Option<String>,
    /// The working directory the turn runs in.
    pub cwd: String,
}

/// What a run recorded about one member's turn control.
#[derive(Debug, PartialEq, Eq)]
pub enum Turn {
    /// The member's agent side asked for a controllable turn, addressed here.
    Open {
        /// Where to reach it.
        address: Address,
    },
    /// Control was asked for and could not be provided; this is what said so.
    Unavailable {
        /// oneharness's own reason, carried through untouched.
        reason: String,
    },
}

/// One member's turn control, as the run wrote it down.
#[derive(Debug, PartialEq, Eq)]
pub struct Record {
    /// The shape this record was written under.
    pub schema_version: u32,
    /// What the run knew about the member's turn when it last wrote.
    pub turn: Turn,
}

/// The members of an address, as JSON.
pub open spec fn address_text(address: Address) -> Seq<char> {
    let store = match address.session_dir {
        Some(dir) => seq![json_member("session_dir"@, json_string(dir@))],
        None => seq![],
    };
    json_object(
        seq![json_member("session"@, json_string(address.session@))] + store + seq![
            json_member("cwd"@, json_string(address.cwd@)),
        ],
    )
}

/// A turn, as JSON.
pub open spec fn turn_text(turn: Turn) -> Seq<char> {
    match turn {
        Turn::Open { address } => json_object(
            seq![
                json_member("state"@, json_string("open"@)),
                json_member("address"@, address_text(address)),
            ],
        ),
        Turn::Unavailable { reason } => json_object(
            seq![
                json_member("state"@, json_string("unavailable"@)),
                json_member("reason"@, json_string(reason@)),
            ],
        ),
    }
}

/// The record a run writes about a turn, as JSON.
pub open spec fn record_text(turn: Turn) -> Seq<char> {
    json_object(
        seq![
            json_member("schema_version"@, decimal(CONTROL_SCHEMA_VERSION as nat)),
            json_member("turn"@, turn_text(turn)),
        ],
    )
}

/// Where a member's record is, from its scratch.
pub open spec fn record_path(scratch: Seq<char>) -> Seq<char> {
    under(scratch, CONTROL_FILE@)
}

/// One place both the run and the `interrupt` process compose the record's
/// location.
pub fn path(scratch: &str) -> (path: String)
    ensures
        path@ == record_path(scratch@),
{
    join_path(scratch, CONTROL_FILE)
}

fn write_address(address: &Address) -> (text: String)
    ensures
        text@ == address_text(*address),
{
    let mut members: Vec<String> = Vec::new();
    members.push(write_string_member("session", address.session.as_str()));
    if let Some(dir) = &address.session_dir {
        members.push(write_string_member("session_dir", dir.as_str()));
    }
    members.push(write_string_member("cwd", address.cwd.as_str()));
    proof {
        if address.session_dir is Some {
            let dir = address.session_dir->0;
            assert(texts_of(members@) =~= seq![
                json_member("session"@, json_string(address.session@)),
            ] + seq![json_member("session_dir"@, json_string(dir@))] + seq![
                json_member("cwd"@, json_string(address.cwd@)),
            ]);
        } else {
            assert(texts_of(members@) =~= seq![
                json_member("session"@, json_string(address.session@)),
            ] + Seq::<Seq<char>>::empty() + seq![
                json_member("cwd"@, json_string(address.cwd@)),
            ]);
        }
    }
    write_object(&members)
}

fn write_turn(turn: &Turn) -> (text: String)
    ensures
        text@ == turn_text(*turn),
{
    let mut members: Vec<String> = Vec::new();
    match turn {
        Turn::Open { address } => {
            members.push(write_string_member("state", "open"));
            members.push(write_member("address", write_address(address).as_str()));
            assert(texts_of(members@) =~= seq![
                json_member("state"@, json_string("open"@)),
                json_member("address"@, address_text(*address)),
            ]);
        },
        Turn::Unavailable { reason } => {
            members.push(write_string_member("state", "unavailable"));
            members.push(write_string_member("reason", reason.as_str()));
            assert(texts_of(members@) =~= seq![
                json_member("state"@, json_string("unavailable"@)),
                json_member("reason"@, json_string(reason@)),
            ]);
        },
    }
    write_object(&members)
}

/// What this run writes about a member's turn control, and where.
pub fn write(scratch: &str, turn: &Turn) -> (file: GeneratedFile)
    ensures
        file.path@ == record_path(scratch@),
        file.content@ == record_text(*turn),
{
    let mut members: Vec<String> = Vec::new();
    members.push(
        write_member("schema_version", write_decimal(CONTROL_SCHEMA_VERSION as u64).as_str()),
    );
    members.push(write_member("turn", write_turn(turn).as_str()));
    assert(texts_of(members@) =~= seq![
        json_member("schema_version"@, decimal(CONTROL_SCHEMA_VERSION as nat)),
        json_member("turn"@, turn_text(*turn)),
    ]);
    GeneratedFile { path: path(scratch), content: write_object(&members) }
}

/// An address, as text.
pub struct AddressText {
    /// The session handle.
    pub session: Seq<char>,
    /// The session store.
    pub session_dir: Option<Seq<char>>,
    /// The working directory.
    pub cwd: Seq<char>,
}

/// A turn, as text.
pub enum TurnText {
    /// One that can be addressed.
    Open(AddressText),
    /// One that cannot, and why.
    Unavailable(Seq<char>),
}

impl View for Turn {
    type V = TurnText;

    open spec fn view(&self) -> TurnText {
        match self {
            Turn::Open { address } => TurnText::Open(
                AddressText {
                    session: address.session@,
                    session_dir: text_of(address.session_dir),
                    cwd: address.cwd@,
                },
            ),
            Turn::Unavailable { reason } => TurnText::Unavailable(reason@),
        }
    }
}

/// What stands at each place of a record's document.
#[derive(Debug, PartialEq, Eq)]
pub struct Sheet {
    /// The document itself.
    pub root: Node,
    /// Its schema version.
    pub version: Node,
    /// Its turn.
    pub turn: Node,
    /// The turn's state.
    pub state: Node,
    /// The turn's address.
    pub address: Node,
    /// The address's session.
    pub session: Node,
    /// The address's session store.
    pub session_dir: Node,
    /// The address's working directory.
    pub cwd: Node,
    /// The turn's reason.
    pub reason: Node,
}

/// Whether a sheet holds what stands at each place of `raw`.
pub open spec fn surveys(sheet: Sheet, raw: Seq<char>) -> bool {
    &&& sheet.root@ == json_node(raw, ""@)
    &&& sheet.version@ == json_node(raw, "/schema_version"@)
    &&& sheet.turn@ == json_node(raw, "/turn"@)
    &&& sheet.state@ == json_node(raw, "/turn/state"@)
    &&& sheet.address@ == json_node(raw, "/turn/address"@)
    &&& sheet.session@ == json_node(raw, "/turn/address/session"@)
    &&& sheet.session_dir@ == json_node(raw, "/turn/address/session_dir"@)
    &&& sheet.cwd@ == json_node(raw, "/turn/address/cwd"@)
    &&& sheet.reason@ == json_node(raw, "/turn/reason"@)
}

/// Whether every place of a record's document is read back as it was written.
pub open spec fn all_faithful(raw: Seq<char>) -> bool {
    &&& faithful(raw, ""@)
    &&& faithful(raw, "/schema_version"@)
    &&& faithful(raw, "/turn"@)
    &&& faithful(raw, "/turn/state"@)
    &&& faithful(raw, "/turn/address"@)
    &&& faithful(raw, "/turn/address/session"@)
    &&& faithful(raw, "/turn/address/session_dir"@)
    &&& faithful(raw, "/turn/address/cwd"@)
    &&& faithful(raw, "/turn/reason"@)
}

/// Look at each place of a record's document.
fn survey(raw: &str) -> (sheet: Result<Sheet, String>)
    ensures
        match json_fault(raw@) {
            Some(wanted) => sheet matches Err(why) && why@ == wanted,
            None => sheet matches Ok(found) && surveys(found, raw@),
        },
        faithful(raw@, ""@),
        sheet is Ok ==> all_faithful(raw@),
{
    let root = node_at(raw, "")?;
    let version = node_at(raw, "/schema_version")?;
    let turn = node_at(raw, "/turn")?;
    let state = node_at(raw, "/turn/state")?;
    let address = node_at(raw, "/turn/address")?;
    let session = node_at(raw, "/turn/address/session")?;
    let session_dir = node_at(raw, "/turn/address/session_dir")?;
    let cwd = node_at(raw, "/turn/address/cwd")?;
    let reason = node_at(raw, "/turn/reason")?;
    Ok(Sheet { root, version, turn, state, address, session, session_dir, cwd, reason })
}

/// Whether a pointer is one of the places of a record's document.
pub open spec fn is_place(pointer: Seq<char>) -> bool {
    ||| pointer == ""@
    ||| pointer == "/schema_version"@
    ||| pointer == "/turn"@
    ||| pointer == "/turn/state"@
    ||| pointer == "/turn/address"@
    ||| pointer == "/turn/address/session"@
    ||| pointer == "/turn/address/session_dir"@
    ||| pointer == "/turn/address/cwd"@
    ||| pointer == "/turn/reason"@
}

/// The first of these keys that is none of three.
pub open spec fn stray(
    keys: Seq<Seq<char>>,
    first: Seq<char>,
    second: Seq<char>,
    third: Seq<char>,
) -> Option<Seq<char>>
    decreases keys.len(),
{
    if keys.len() == 0 {
        None
    } else if keys[0] != first && keys[0] != second && keys[0] != third {
        Some(keys[0])
    } else {
        stray(keys.drop_first(), first, second, third)
    }
}

/// The first key of an object that is none of three.
pub open spec fn stray_in(
    node: NodeText,
    first: Seq<char>,
    second: Seq<char>,
    third: Seq<char>,
) -> Option<Seq<char>> {
    match node {
        NodeText::Object(keys) => stray(keys, first, second, third),
        _ => None,
    }
}

fn find_stray(node: &Node, first: &str, second: &str, third: &str) -> (key: Option<String>)
    ensures
        text_of(key) == stray_in(node@, first@, second@, third@),
{
    let keys = match node {
        Node::Object(keys) => keys,
        _ => return None,
    };
    let ghost all = texts_of(keys@);
    let mut at: usize = 0;
    assert(all.skip(0) =~= all);
    while at < keys.len()
        invariant
            at <= keys@.len(),
            all == texts_of(keys@),
            stray(all, first@, second@, third@) == stray(
                all.skip(at as int),
                first@,
                second@,
                third@,
            ),
            node@ == NodeText::Object(all),
        decreases keys@.len() - at,
    {
        let key = keys[at].as_str();
        assert(all.skip(at as int)[0] == key@);
        if !same(key, first) && !same(key, second) && !same(key, third) {
            return Some(String::from_str(key));
        }
        assert(all.skip(at as int).drop_first() =~= all.skip(at + 1));
        at = at + 1;
    }
    None
}

/// The first field of a record that this build does not know, at whichever level it
/// stands: in the record, in its turn, or in the address of an open one.
pub open spec fn unknown_in(sheet: Sheet) -> Option<Seq<char>> {
    let open = sheet.state@ == NodeText::Text("open"@);
    let told = if open {
        "address"@
    } else {
        "reason"@
    };
    if let Some(key) = stray_in(sheet.root@, "schema_version"@, "turn"@, "turn"@) {
        Some(key)
    } else if let Some(key) = stray_in(sheet.turn@, "state"@, told, told) {
        Some(key)
    } else if open {
        stray_in(sheet.address@, "session"@, "session_dir"@, "cwd"@)
    } else {
        None
    }
}

fn is_open(sheet: &Sheet) -> (open: bool)
    ensures
        open == (sheet.state@ == NodeText::Text("open"@)),
{
    match &sheet.state {
        Node::Text(state) => same(state.as_str(), "open"),
        _ => false,
    }
}

fn find_unknown(sheet: &Sheet) -> (key: Option<String>)
    ensures
        text_of(key) == unknown_in(*sheet),
{
    if let Some(key) = find_stray(&sheet.root, "schema_version", "turn", "turn") {
        return Some(key);
    }
    if is_open(sheet) {
        if let Some(key) = find_stray(&sheet.turn, "state", "address", "address") {
            return Some(key);
        }
        return find_stray(&sheet.address, "session", "session_dir", "cwd");
    }
    find_stray(&sheet.turn, "state", "reason", "reason")
}

/// The turn the places of a record's document tell of, where they tell of one.
pub open spec fn told_in(sheet: Sheet) -> Option<TurnText> {
    if sheet.state@ == NodeText::Text("open"@) {
        match (sheet.session@, sheet.session_dir@, sheet.cwd@) {
            (NodeText::Text(session), NodeText::Text(dir), NodeText::Text(cwd)) => Some(
                TurnText::Open(AddressText { session, session_dir: Some(dir), cwd }),
            ),
            (NodeText::Text(session), _, NodeText::Text(cwd)) => Some(
                TurnText::Open(AddressText { session, session_dir: None, cwd }),
            ),
            _ => None,
        }
    } else {
        match sheet.reason@ {
            NodeText::Text(reason) => Some(TurnText::Unavailable(reason)),
            _ => None,
        }
    }
}

fn tell(sheet: Sheet) -> (turn: Option<Turn>)
    ensures
        match told_in(sheet) {
            Some(wanted) => turn matches Some(found) && found@ == wanted,
            None => turn is None,
        },
{
    if !is_open(&sheet) {
        return match sheet.reason {
            Node::Text(reason) => Some(Turn::Unavailable { reason }),
            _ => None,
        };
    }
    let session_dir = match sheet.session_dir {
        Node::Text(dir) => Some(dir),
        _ => None,
    };
    match (sheet.session, sheet.cwd) {
        (Node::Text(session), Node::Text(cwd)) => Some(
            Turn::Open { address: Address { session, session_dir, cwd } },
        ),
        _ => None,
    }
}

/// A member's record as it was found: the text of its file, and what the document's
/// own reader made of it.
#[derive(Debug, PartialEq, Eq)]
pub struct Found {
    /// The text.
    pub raw: String,
    /// The record read from it, or why it is none.
    pub record: Result<Record, String>,
}

/// A record that is none.
pub open spec fn unreadable(scratch: Seq<char>, why: Seq<char>) -> Seq<char> {
    "the turn-control record at "@ + record_path(scratch) + " is not one this build can read ("@
        + why + ")"@
}

/// A record from another build.
pub open spec fn of_another_version(scratch: Seq<char>, version: u32) -> Seq<char> {
    "the turn-control record at "@ + record_path(scratch) + " names schema version "@ + decimal(
        version as nat,
    ) + ", and this build reads "@ + decimal(FIRST_CONTROL_SCHEMA_VERSION as nat) + " to "@
        + decimal(CONTROL_SCHEMA_VERSION as nat)
}

/// What is said of a field this build does not know.
pub open spec fn unknown_field(key: Seq<char>) -> Seq<char> {
    "unknown field `"@ + key + "`"@
}

/// Whether `outcome` is what a record comes to: the turn of one of a version this
/// build reads, and a refusal of any other.
///
/// A record from a later build is refused by number rather than acted on, and one
/// below the first version was written by nothing.
pub open spec fn acts_on(
    outcome: Result<Turn, String>,
    scratch: Seq<char>,
    record: Result<Record, String>,
) -> bool {
    match record {
        Err(why) => outcome matches Err(text) && text@ == unreadable(scratch, why@),
        Ok(found) => if FIRST_CONTROL_SCHEMA_VERSION <= found.schema_version
            <= CONTROL_SCHEMA_VERSION {
            outcome == Ok::<Turn, String>(found.turn)
        } else {
            outcome matches Err(text) && text@ == of_another_version(scratch, found.schema_version)
        },
    }
}

fn refuse(scratch: &str, why: &str) -> (text: String)
    ensures
        text@ == unreadable(scratch@, why@),
{
    let mut text = String::from_str("the turn-control record at ");
    text.append(path(scratch).as_str());
    text.append(" is not one this build can read (");
    text.append(why);
    text.append(")");
    text
}

/// What a record comes to.
pub fn act_on(scratch: &str, record: Result<Record, String>) -> (outcome: Result<Turn, String>)
    ensures
        acts_on(outcome, scratch@, record),
{
    match record {
        Err(why) => Err(refuse(scratch, why.as_str())),
        Ok(record) => {
            if FIRST_CONTROL_SCHEMA_VERSION <= record.schema_version && record.schema_version
                <= CONTROL_SCHEMA_VERSION {
                return Ok(record.turn);
            }
            let mut text = String::from_str("the turn-control record at ");
            text.append(path(scratch).as_str());
            text.append(" names schema version ");
            text.append(write_decimal(record.schema_version as u64).as_str());
            text.append(", and this build reads ");
            text.append(write_decimal(FIRST_CONTROL_SCHEMA_VERSION as u64).as_str());
            text.append(" to ");
            text.append(write_decimal(CONTROL_SCHEMA_VERSION as u64).as_str());
            Err(text)
        },
    }
}

/// What a member with no record is told.
pub open spec fn no_record() -> Seq<char> {
    "this member opened no controllable turn: only a two-party member's agent side does, and this run recorded none for it"@
}

/// Whether a text is what this build writes about some turn.
pub open spec fn written_here(raw: Seq<char>) -> bool {
    exists|written: Turn| raw == #[trigger] record_text(written)
}

/// Whether `outcome` is what a record that this build did not write comes to: a text
/// that is no JSON, or that holds a field this build does not know, is refused
/// whatever its reader made of it.
pub open spec fn checks(outcome: Result<Turn, String>, scratch: Seq<char>, found: Found) -> bool {
    if found.record is Err {
        acts_on(outcome, scratch, found.record)
    } else if let Some(why) = json_fault(found.raw@) {
        outcome matches Err(text) && text@ == unreadable(scratch, why)
    } else {
        exists|sheet: Sheet| #[trigger]
            surveys(sheet, found.raw@) && match unknown_in(sheet) {
                Some(key) => outcome matches Err(text) && text@ == unreadable(
                    scratch,
                    unknown_field(key),
                ),
                None => acts_on(outcome, scratch, found.record),
            }
    }
}

fn check(scratch: &str, found: Found) -> (outcome: Result<Turn, String>)
    ensures
        checks(outcome, scratch@, found),
{
    let ghost whole = found;
    if found.record.is_err() {
        return act_on(scratch, found.record);
    }
    match survey(found.raw.as_str()) {
        Err(why) => Err(refuse(scratch, why.as_str())),
        Ok(sheet) => {
            let unknown = find_unknown(&sheet);
            assert(surveys(sheet, whole.raw@));
            match unknown {
                Some(key) => {
                    let mut why = String::from_str("unknown field `");
                    why.append(key.as_str());
                    why.append("`");
                    Err(refuse(scratch, why.as_str()))
                },
                None => act_on(scratch, found.record),
            }
        },
    }
}

/// The turn a text is what this build writes about, where it is that.
fn recognize(raw: &str) -> (turn: Option<Turn>)
    ensures
        match turn {
            Some(found) => raw@ == record_text(found) && forall|written: Turn|
                raw@ == #[trigger] record_text(written) ==> found@ == written@,
            None => !written_here(raw@),
        },
{
    match survey(raw) {
        Err(_) => {
            proof {
                if written_here(raw@) {
                    let written = choose|written: Turn| raw@ == #[trigger] record_text(written);
                    a_written_record_can_be_looked_at(raw@, written, ""@);
                }
            }
            None
        },
        Ok(sheet) => {
            let ghost seen = sheet;
            proof {
                assert forall|written: Turn| raw@ == #[trigger] record_text(written) implies
                    told_in(seen) == Some(written@) by {
                    a_written_record_is_surveyed(raw@, written, seen);
                }
            }
            match tell(sheet) {
                None => None,
                Some(turn) => {
                    if same(write("", &turn).content.as_str(), raw) {
                        return Some(turn);
                    }
                    proof {
                        assert forall|written: Turn| raw@ == #[trigger] record_text(
                            written,
                        ) implies false by {
                            a_record_says_no_more_than_its_turn(turn, written);
                        }
                    }
                    None
                },
            }
        },
    }
}

/// What a run recorded for one member, or why there is nothing to act on; `found` is
/// its record's file, where there is one to read.
///
/// What this build wrote is read back as the turn it was written about. Any other
/// record is what its reader made of it.
pub fn read(scratch: &str, found: Option<Found>) -> (turn: Result<Turn, String>)
    ensures
        match found {
            None => turn matches Err(text) && text@ == no_record(),
            Some(found) => {
                &&& forall|written: Turn|
                    found.raw@ == #[trigger] record_text(written) ==> (turn matches Ok(told)
                        && told@ == written@)
                &&& !written_here(found.raw@) ==> checks(turn, scratch@, found)
            },
        },
{
    match found {
        None => Err(
            String::from_str(
                "this member opened no controllable turn: only a two-party member's agent side does, and this run recorded none for it",
            ),
        ),
        Some(found) => match recognize(found.raw.as_str()) {
            Some(turn) => {
                assert(written_here(found.raw@));
                Ok(turn)
            },
            None => {
                assert(forall|written: Turn| found.raw@ != #[trigger] record_text(written));
                check(scratch, found)
            },
        },
    }
}

// ---- Delivering a redirection ----
/// What one `oneharness interrupt` answered.
#[derive(Debug, PartialEq, Eq)]
pub enum Delivery {
    /// The run took ownership of the redirection.
    Delivered,
    /// There was no controllable turn to reach, and this is which of the reasons
    /// applied.
    NoTurn(String),
    /// The delivery was attempted and failed.
    Failed(String),
    /// The redirection itself was not one oneharness would take.
    Invalid(String),
}

/// Why oneharness refused a redirection.
#[derive(Debug, Clone, Copy, PartialEq, Eq, Structural)]
pub enum Reason {
    /// The run is alive but no turn is in flight.
    NoActiveTurn,
    /// No run is listening.
    NotRunning,
    /// The harness has no lever.
    Unsupported,
}

/// What an answer frame says: nothing against a delivery that was served, the
/// reason of one that was refused, or why the bytes are no frame.
pub uninterp spec fn control_answer(frame: Seq<u8>) -> Result<Option<Reason>, Seq<char>>;

/// `serde_json::from_slice` into `oneharness_core`'s `ControlResponse`, and that
/// frame's `reason`: none for a delivery that was served. Bytes that are no frame
/// are answered with the parser's own message.
#[verifier::external_body]
fn read_answer(frame: &[u8]) -> (answer: Result<Option<Reason>, String>)
    ensures
        match control_answer(frame@) {
            Ok(reason) => answer == Ok::<Option<Reason>, String>(reason),
            Err(why) => answer matches Err(text) && text@ == why,
        },
{
    match serde_json::from_slice::<ControlResponse>(frame) {
        Ok(answer) => Ok(answer.reason().map(|reason| match reason {
            ControlReason::NoActiveTurn => Reason::NoActiveTurn,
            ControlReason::NotRunning => Reason::NotRunning,
            ControlReason::Unsupported => Reason::Unsupported,
        })),
        Err(err) => Err(err.to_string()),
    }
}

/// One refusal, in the words an operator is given.
pub open spec fn explained(reason: Reason) -> Seq<char> {
    match reason {
        Reason::NoActiveTurn => "the member is between turns: its run is alive but nothing is in flight to redirect"@,
        Reason::NotRunning => "nothing is listening on the member's control socket, so its turn has already ended"@,
        Reason::Unsupported => "the member's run has no out-of-band turn control to serve the request"@,
    }
}

/// One refusal, in the words an operator is given.
pub fn explain(reason: Reason) -> (text: String)
    ensures
        text@ == explained(reason),
{
    match reason {
        Reason::NoActiveTurn => String::from_str(
            "the member is between turns: its run is alive but nothing is in flight to redirect",
        ),
        Reason::NotRunning => String::from_str(
            "nothing is listening on the member's control socket, so its turn has already ended",
        ),
        Reason::Unsupported => String::from_str(
            "the member's run has no out-of-band turn control to serve the request",
        ),
    }
}

/// The argv an `oneharness interrupt` is run with.
pub open spec fn interrupt_argv(address: Address, input: Option<Seq<char>>) -> Seq<Seq<char>> {
    let store = match address.session_dir {
        Some(dir) => seq!["--session-dir"@, dir@],
        None => seq![],
    };
    let redirection = match input {
        Some(text) => seq!["--input"@, text],
        None => seq![],
    };
    seq!["interrupt"@, "--session"@, address.session@] + store + seq![
        "--cwd"@,
        address.cwd@,
        "--compact"@,
    ] + redirection
}

/// The argv that asks the run listening at `address` to stop what it is doing and
/// do `input` instead.
pub fn interrupt_args(address: &Address, input: Option<&str>) -> (args: Vec<String>)
    ensures
        texts_of(args@) == interrupt_argv(*address, seen(input)),
{
    let mut args: Vec<String> = Vec::new();
    args.push(String::from_str("interrupt"));
    args.push(String::from_str("--session"));
    args.push(address.session.clone());
    if let Some(dir) = &address.session_dir {
        args.push(String::from_str("--session-dir"));
        args.push(dir.clone());
    }
    args.push(String::from_str("--cwd"));
    args.push(address.cwd.clone());
    args.push(String::from_str("--compact"));
    if let Some(text) = input {
        args.push(String::from_str("--input"));
        args.push(String::from_str(text));
    }
    assert(texts_of(args@) =~= interrupt_argv(*address, seen(input)));
    args
}

/// What running an `oneharness interrupt` came to.
#[derive(Debug, PartialEq, Eq)]
pub enum Ran {
    /// It could not be run, and why.
    NotRun(String),
    /// It ended.
    Ended {
        /// Its exit code, when it exited rather than being signalled.
        code: Option<i32>,
        /// What it wrote to standard output.
        stdout: Vec<u8>,
        /// What it wrote to standard error.
        stderr: String,
    },
}

/// What a delivery came to, told apart by its outcome and the words it carries.
pub open spec fn delivers(delivery: Delivery, bin: Seq<char>, ran: Ran) -> bool {
    match ran {
        Ran::NotRun(why) => delivery matches Delivery::Failed(text) && text@ == "cannot run `"@
            + bin + " interrupt`: "@ + why@ + ". Is oneharness installed and on PATH?"@,
        Ran::Ended { code, stdout, stderr } => answers_with(
            delivery,
            bin,
            code,
            control_answer(stdout@),
            trimmed(stderr@),
        ),
    }
}

/// What a delivery comes to, from the answer frame and, where there is none, from
/// the exit code.
pub open spec fn answers_with(
    delivery: Delivery,
    bin: Seq<char>,
    code: Option<i32>,
    answer: Result<Option<Reason>, Seq<char>>,
    stderr: Seq<char>,
) -> bool {
    match answer {
        Ok(None) => delivery is Delivered,
        Ok(Some(reason)) => delivery matches Delivery::NoTurn(text) && text@ == explained(reason),
        Err(why) => if code == Some(EXIT_INVALID_CONFIG) {
            delivery matches Delivery::Invalid(text) && text@ == stderr
        } else {
            delivery matches Delivery::Failed(text) && text@ == "`"@ + bin
                + " interrupt` answered nothing this build could read ("@ + why
                + "); its standard error said: "@ + stderr
        },
    }
}

/// What an answer comes to: the frame first, whatever the exit code; with no frame
/// at all, oneharness's own usage code says the redirection was not one it would
/// take, and anything else is a lever that broke.
pub fn settle_delivery(
    bin: &str,
    code: Option<i32>,
    answer: Result<Option<Reason>, String>,
    stderr: String,
) -> (delivery: Delivery)
    ensures
        answers_with(
            delivery,
            bin@,
            code,
            match answer {
                Ok(reason) => Ok(reason),
                Err(why) => Err(why@),
            },
            stderr@,
        ),
{
    match answer {
        Ok(None) => Delivery::Delivered,
        Ok(Some(reason)) => Delivery::NoTurn(explain(reason)),
        Err(why) => {
            let invalid = match code {
                Some(code) => code == EXIT_INVALID_CONFIG,
                None => false,
            };
            if invalid {
                return Delivery::Invalid(stderr);
            }
            let mut text = String::from_str("`");
            text.append(bin);
            text.append(" interrupt` answered nothing this build could read (");
            text.append(why.as_str());
            text.append("); its standard error said: ");
            text.append(stderr.as_str());
            Delivery::Failed(text)
        },
    }
}

/// What one `oneharness interrupt` delivered.
pub fn deliver(bin: &str, ran: Ran) -> (delivery: Delivery)
    ensures
        delivers(delivery, bin@, ran),
{
    match ran {
        Ran::NotRun(why) => {
            let mut text = String::from_str("cannot run `");
            text.append(bin);
            text.append(" interrupt`: ");
            text.append(why.as_str());
            text.append(". Is oneharness installed and on PATH?");
            Delivery::Failed(text)
        },
        Ran::Ended { code, stdout, stderr } => {
            let answer = read_answer(stdout.as_slice());
            settle_delivery(bin, code, answer, trim(stderr.as_str()))
        },
    }
}

} // verus!
