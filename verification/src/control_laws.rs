//! How a turn is addressed and a redirection delivered.

use vstd::prelude::*;

use crate::control::{
    act_on, control_answer, deliver, explain, interrupt_args, path, settle_delivery, Address, Delivery,
    Found, Ran, Reason, Record, Turn,
};
use crate::invoke::GeneratedFile;
use crate::launch_laws::{a_name_is_placed, placed_in};
use crate::stand_in_laws::{occurs, stands};
use crate::text::{text_of, texts_of};

verus! {

/// A turn's record is one file of its member's scratch, whoever writes or reads it.
pub proof fn a_record_is_one_file_of_the_scratch(
    scratch: &str,
    place: String,
    turn: &Turn,
    file: GeneratedFile,
)
    requires
        call_ensures(path, (scratch,), place),
        call_ensures(crate::control::write, (scratch, turn), file),
    ensures
        placed_in(place@, scratch@, "control.json"@),
        file.path@ == place@,
{
    reveal_strlit("control.json");
    a_name_is_placed(scratch@, "control.json"@);
}

/// A record is acted on exactly where it was read as one and names the version this build
/// writes: what is answered is its turn.
pub proof fn only_this_builds_version_is_acted_on(
    scratch: &str,
    record: Result<Record, String>,
    outcome: Result<Turn, String>,
)
    requires
        call_ensures(act_on, (scratch, record), outcome),
    ensures
        outcome is Ok <==> (record matches Ok(found) && found.schema_version == 1),
        outcome matches Ok(turn) ==> (record matches Ok(found) && found.turn == turn),
{
}

/// The turn that is addressed is the one of the given session, in its store where it has
/// one, and in its directory; the redirection, where there is one, comes last and as it
/// is.
pub proof fn an_interrupt_addresses_its_turn(
    address: &Address,
    input: Option<&str>,
    args: Vec<String>,
)
    requires
        call_ensures(interrupt_args, (address, input), args),
    ensures
        ({
            let store = if address.session_dir is Some {
                2int
            } else {
                0
            };
            &&& args@.len() == 6 + store + if input is Some {
                2int
            } else {
                0
            }
            &&& args@[0]@ == "interrupt"@
            &&& args@[1]@ == "--session"@
            &&& args@[2]@ == address.session@
            &&& address.session_dir matches Some(dir) ==> args@[3]@ == "--session-dir"@
                && args@[4]@ == dir@
            &&& args@[3 + store]@ == "--cwd"@
            &&& args@[4 + store]@ == address.cwd@
            &&& args@[5 + store]@ == "--compact"@
            &&& input matches Some(text) ==> args@[6 + store]@ == "--input"@ && args@[7 + store]@
                == text@
        }),
{
    let texts = texts_of(args@);
    assert(texts.len() == args@.len());
    assert forall|i: int| 0 <= i < args@.len() implies #[trigger] args@[i]@ == texts[i] by {}
}

/// What oneharness answered decides a delivery, whatever it exited with: a served frame is
/// delivered, and a refused one is no turn, for the reason it gives. With no frame, exit
/// code two says that the redirection was not one to take, and anything else that the
/// delivery failed.
pub proof fn an_answer_decides_before_the_exit_code(
    bin: &str,
    code: Option<i32>,
    answer: Result<Option<Reason>, String>,
    stderr: String,
    delivery: Delivery,
)
    requires
        call_ensures(settle_delivery, (bin, code, answer, stderr), delivery),
    ensures
        delivery is Delivered <==> answer == Ok::<Option<Reason>, String>(None),
        delivery is NoTurn <==> (answer matches Ok(reason) && reason is Some),
        delivery is Invalid <==> answer is Err && code == Some(2i32),
        delivery is Failed <==> answer is Err && code != Some(2i32),
        delivery matches Delivery::Invalid(why) ==> why@ == stderr@,
        answer matches Ok(Some(reason)) ==> (delivery matches Delivery::NoTurn(why) && match reason {
            Reason::NoActiveTurn => why@
                == "the member is between turns: its run is alive but nothing is in flight to redirect"@,
            Reason::NotRunning => why@
                == "nothing is listening on the member's control socket, so its turn has already ended"@,
            Reason::Unsupported => why@
                == "the member's run has no out-of-band turn control to serve the request"@,
        }),
{
}

/// A delivery that could not be run failed, and any other is what its answer frame says.
pub proof fn a_delivery_is_what_was_answered(bin: &str, ran: Ran, delivery: Delivery)
    requires
        call_ensures(deliver, (bin, ran), delivery),
    ensures
        ran is NotRun ==> delivery is Failed,
        ran matches Ran::Ended { code, stdout, .. } ==> {
            &&& delivery is Delivered <==> control_answer(stdout@) == Ok::<
                Option<Reason>,
                Seq<char>,
            >(None)
            &&& delivery is NoTurn <==> (control_answer(stdout@) matches Ok(reason)
                && reason is Some)
            &&& delivery is Invalid <==> control_answer(stdout@) is Err && code == Some(2i32)
            &&& delivery is Failed <==> control_answer(stdout@) is Err && code != Some(2i32)
        },
{
}

/// Each refusal is explained in words of its own.
pub proof fn a_refusal_is_explained(reason: Reason, text: String)
    requires
        call_ensures(explain, (reason,), text),
    ensures
        match reason {
            Reason::NoActiveTurn => text@
                == "the member is between turns: its run is alive but nothing is in flight to redirect"@,
            Reason::NotRunning => text@
                == "nothing is listening on the member's control socket, so its turn has already ended"@,
            Reason::Unsupported => text@
                == "the member's run has no out-of-band turn control to serve the request"@,
        },
{
}

/// What is written about a turn reads back as that turn, whatever any reader made of the
/// file; a member without a file has no turn.
pub proof fn a_written_turn_reads_back(
    scratch: &str,
    turn: &Turn,
    file: GeneratedFile,
    found: Option<Found>,
    read: Result<Turn, String>,
)
    requires
        call_ensures(crate::control::write, (scratch, turn), file),
        call_ensures(crate::control::read, (scratch, found), read),
    ensures
        found is None ==> read is Err,
        found matches Some(held) && held.raw@ == file.content@ ==> read is Ok && match *turn {
            Turn::Open { address } => read->Ok_0 matches Turn::Open { address: told }
                && told.session@ == address.session@ && text_of(told.session_dir) == text_of(
                address.session_dir,
            ) && told.cwd@ == address.cwd@,
            Turn::Unavailable { reason } => read->Ok_0 matches Turn::Unavailable { reason: told }
                && told@ == reason@,
        },
{
    if let Some(held) = found {
        if held.raw@ == file.content@ {
            assert(held.raw@ == crate::control::record_text(*turn));
            assert(read->Ok_0@ == turn@);
        }
    }
}

/// A turn that comes of a file is the one that was written into it, or one that a reader
/// of the file found under the version this build writes.
pub proof fn a_turn_comes_of_its_file(
    scratch: &str,
    found: Option<Found>,
    read: Result<Turn, String>,
)
    requires
        call_ensures(crate::control::read, (scratch, found), read),
        read is Ok,
    ensures
        found is Some && (crate::control::written_here(found->0.raw@) || (
        found->0.record matches Ok(record) && record.schema_version == 1 && read->Ok_0
            == record.turn)),
{
}

/// A refusal of a record names its file, and says why it is none or which version it is of.
pub proof fn a_refused_record_is_named(
    scratch: &str,
    record: Result<Record, String>,
    outcome: Result<Turn, String>,
    place: String,
)
    requires
        call_ensures(act_on, (scratch, record), outcome),
        call_ensures(path, (scratch,), place),
    ensures
        outcome matches Err(text) ==> occurs(text@, place@) && match record {
            Err(why) => occurs(text@, why@),
            Ok(found) => occurs(text@, crate::text::decimal(found.schema_version as nat)),
        },
{
    if let Err(text) = outcome {
        let front = "the turn-control record at "@;
        match record {
            Err(why) => {
                let middle = " is not one this build can read ("@;
                it_stands_between(text@, front, place@, middle + why@ + ")"@);
                it_stands_between(text@, front + place@ + middle, why@, ")"@);
            },
            Ok(found) => {
                let middle = " names schema version "@;
                let version = crate::text::decimal(found.schema_version as nat);
                let end = ", and this build reads "@ + crate::text::decimal(1) + " to "@
                    + crate::text::decimal(1);
                it_stands_between(text@, front, place@, middle + version + end);
                it_stands_between(text@, front + place@ + middle, version, end);
            },
        }
    }
}

proof fn it_stands_between(
    text: Seq<char>,
    front: Seq<char>,
    inner: Seq<char>,
    end: Seq<char>,
)
    requires
        text =~= front + inner + end,
    ensures
        occurs(text, inner),
{
    let at = front.len() as int;
    assert(text.subrange(at, at + inner.len()) =~= inner);
    assert(stands(text, inner, at));
}

} // verus!
