//! What past runs did, read back out of the state directory.
//!
//! A run's record is written when it starts and rewritten as it settles, so a
//! listing holds the run that is still going.

use vstd::multiset::Multiset;
use vstd::prelude::*;
use vstd::string::StringExecFns;

use crate::anchor::{join_path, under};
use crate::error::{answers, Error};
use crate::keyed::{before, is_before, order_is_total, order_is_transitive};
use crate::text::{is_plain_name, plain_name, quote, quoted};

verus! {

/// One run, as its record describes it.
#[derive(Debug, PartialEq, Eq)]
pub struct Record {
    /// The run's id, which is also its directory's name.
    pub run_id: String,
    /// The graph it ran, as the command line named it.
    pub graph: String,
    /// The graph's own name.
    pub name: String,
    /// When it started, in milliseconds since the epoch.
    pub started_ms: u64,
    /// When it finished, once it has.
    pub finished_ms: Option<u64>,
    /// What it exited with, once it has.
    pub exit_code: Option<i32>,
    /// The members its graph declares; empty in a record from before they were
    /// written down.
    pub declared_members: Vec<String>,
    /// The members that have settled, by name.
    pub members: Vec<String>,
    /// Where its merged events are.
    pub events_path: String,
}

/// Whether one run is listed before another: the newer first, and of two that
/// started together the one whose id comes first.
pub open spec fn listed_before(first: Record, second: Record) -> bool {
    first.started_ms > second.started_ms || (first.started_ms == second.started_ms && before(
        first.run_id@,
        second.run_id@,
    ))
}

/// Whether no run in `records` stands after one it is listed before.
pub open spec fn newest_first(records: Seq<Record>) -> bool {
    forall|i: int, j: int|
        0 <= i < j < records.len() ==> !listed_before(
            #[trigger] records[j],
            #[trigger] records[i],
        )
}

/// The records among what was read, in the order they were read.
pub open spec fn readable(found: Seq<Option<Record>>) -> Seq<Record>
    decreases found.len(),
{
    if found.len() == 0 {
        seq![]
    } else {
        match found.last() {
            Some(record) => readable(found.drop_last()).push(record),
            None => readable(found.drop_last()),
        }
    }
}

fn is_listed_before(first: &Record, second: &Record) -> (answer: bool)
    ensures
        answer == listed_before(*first, *second),
{
    first.started_ms > second.started_ms || (first.started_ms == second.started_ms && is_before(
        first.run_id.as_str(),
        second.run_id.as_str(),
    ))
}

proof fn listing_is_transitive(first: Record, second: Record, third: Record)
    requires
        !listed_before(second, first),
        listed_before(third, first),
    ensures
        listed_before(third, second),
{
    order_is_total(second.run_id@, first.run_id@);
    order_is_total(third.run_id@, first.run_id@);
    if first.started_ms == second.started_ms && first.started_ms == third.started_ms
        && first.run_id@ != second.run_id@ {
        order_is_transitive(third.run_id@, first.run_id@, second.run_id@);
    }
}

proof fn inserting_adds_one(records: Seq<Record>, at: int, record: Record)
    requires
        0 <= at <= records.len(),
    ensures
        records.insert(at, record).to_multiset() == records.to_multiset().insert(record),
{
    broadcast use vstd::seq_lib::group_to_multiset_ensures;

    let longer = records.insert(at, record);
    assert(longer.remove(at) =~= records);
    assert(longer[at] == record);
    assert(longer.contains(record));
    assert(longer.to_multiset().remove(record).insert(record) =~= longer.to_multiset());
}

/// Every run that could be read, newest first.
///
/// A run whose record cannot be read is skipped rather than failing the listing:
/// one killed between creating its directory and writing its record leaves one
/// behind, and it must not hide every other run.
pub fn list(found: Vec<Option<Record>>) -> (records: Vec<Record>)
    ensures
        records@.to_multiset() == readable(found@).to_multiset(),
        newest_first(records@),
{
    broadcast use {
        vstd::seq_lib::group_to_multiset_ensures,
        vstd::multiset::group_multiset_axioms,
    };

    let ghost whole = found@;
    let mut rest = found;
    let mut records: Vec<Record> = Vec::new();
    // Taken from the back, so that each record is moved rather than copied.
    while rest.len() > 0
        invariant
            newest_first(records@),
            records@.to_multiset().add(readable(rest@).to_multiset()) == readable(
                whole,
            ).to_multiset(),
        decreases rest@.len(),
    {
        let ghost was = rest@;
        let ghost sorted = records@;
        let last = rest.pop();
        assert(rest@ =~= was.drop_last());
        if let Some(Some(record)) = last {
            let mut at: usize = 0;
            while at < records.len() && is_listed_before(&records[at], &record)
                invariant
                    at <= records@.len(),
                    records@ == sorted,
                    forall|i: int| 0 <= i < at ==> listed_before(#[trigger] sorted[i], record),
                decreases records@.len() - at,
            {
                at = at + 1;
            }
            let ghost kept = record;
            records.insert(at, record);
            proof {
                inserting_adds_one(sorted, at as int, kept);
                let now = records@;
                assert forall|i: int, j: int| 0 <= i < j < now.len() implies !listed_before(
                    #[trigger] now[j],
                    #[trigger] now[i],
                ) by {
                    if i == at && j > at {
                        assert(now[j] == sorted[j - 1]);
                        if listed_before(sorted[j - 1], kept) {
                            listing_is_transitive(kept, sorted[at as int], sorted[j - 1]);
                        }
                    } else if j == at {
                        assert(now[i] == sorted[i]);
                        order_is_total(sorted[i].run_id@, kept.run_id@);
                    } else {
                        let a = if i < at { i } else { i - 1 };
                        let b = if j < at { j } else { j - 1 };
                        assert(now[i] == sorted[a] && now[j] == sorted[b]);
                    }
                }
                assert(readable(was) == readable(rest@).push(kept));
                readable(rest@).to_multiset_ensures();
                assert(readable(was).to_multiset() =~= readable(rest@).to_multiset().insert(kept));
                assert(records@.to_multiset().add(readable(rest@).to_multiset())
                    =~= sorted.to_multiset().add(readable(was).to_multiset()));
            }
        } else {
            assert(readable(was) == readable(rest@));
        }
    }
    assert(readable(rest@).to_multiset() =~= Multiset::<Record>::empty());
    assert(records@.to_multiset().add(Multiset::<Record>::empty()) =~= records@.to_multiset());
    records
}

/// Whether `run_id` is one a run could have been given.
///
/// A run id arrives on a command line and becomes a path component, so a value
/// carrying a separator or a parent reference would read a record outside the
/// state directory.
pub fn is_run_id(run_id: &str) -> (answer: bool)
    ensures
        answer == plain_name(run_id@),
{
    is_plain_name(run_id)
}

/// Where a run keeps what it writes.
pub open spec fn run_directory(state_dir: Seq<char>, run_id: Seq<char>) -> Seq<char> {
    under(state_dir, run_id)
}

/// Where a run keeps what it writes.
pub fn run_dir(state_dir: &str, run_id: &str) -> (dir: String)
    ensures
        dir@ == run_directory(state_dir@, run_id@),
{
    join_path(state_dir, run_id)
}

/// Why a run cannot be shown, if it cannot: its id is not one, or reading its
/// record failed.
pub open spec fn show_refusal(
    state_dir: Seq<char>,
    run_id: Seq<char>,
    failed: Option<Seq<char>>,
) -> Option<Seq<char>> {
    if !plain_name(run_id) {
        Some(
            quoted(run_id)
                + " is not a run id: a run id is lowercase letters, digits, hyphens, and underscores, and this one would name a path outside the run store"@,
        )
    } else {
        match failed {
            Some(why) => Some("no run "@ + quoted(run_id) + " under "@ + state_dir + ": "@ + why),
            None => None,
        }
    }
}

/// Why reading failed, where it did.
pub open spec fn failure_of<T>(read: Result<T, String>) -> Option<Seq<char>> {
    match read {
        Ok(_) => None,
        Err(why) => Some(why@),
    }
}

/// One run's record, from what reading its directory came to.
pub fn show(state_dir: &str, run_id: &str, read: Result<Record, String>) -> (shown: Result<
    Record,
    Error,
>)
    ensures
        answers(shown, show_refusal(state_dir@, run_id@, failure_of(read))),
        shown matches Ok(record) ==> read == Ok::<Record, String>(record),
{
    if !is_run_id(run_id) {
        let mut why = quote(run_id);
        why.append(
            " is not a run id: a run id is lowercase letters, digits, hyphens, and underscores, and this one would name a path outside the run store",
        );
        return Err(Error::InvalidConfig(why));
    }
    match read {
        Ok(record) => Ok(record),
        Err(err) => {
            let mut why = String::from_str("no run ");
            why.append(quote(run_id).as_str());
            why.append(" under ");
            why.append(state_dir);
            why.append(": ");
            why.append(err.as_str());
            Err(Error::InvalidConfig(why))
        },
    }
}

/// Why a run's events cannot be given, if they cannot.
pub open spec fn events_refusal(
    shown: Result<Record, Error>,
    failed: Option<Seq<char>>,
) -> Option<Seq<char>> {
    match (shown, failed) {
        (Ok(record), Some(why)) => Some("cannot read "@ + record.events_path@ + ": "@ + why),
        _ => None,
    }
}

/// One run's merged NDJSON as it was written, from what showing the run and
/// reading its stream came to.
pub fn events(shown: Result<Record, Error>, read: Result<String, String>) -> (stream: Result<
    String,
    Error,
>)
    ensures
        shown matches Err(refused) ==> stream == Err::<String, Error>(refused),
        shown is Ok ==> answers(stream, events_refusal(shown, failure_of(read))),
        stream matches Ok(text) ==> read == Ok::<String, String>(text),
{
    match shown {
        Err(refused) => Err(refused),
        Ok(record) => match read {
            Ok(text) => Ok(text),
            Err(err) => {
                let mut why = String::from_str("cannot read ");
                why.append(record.events_path.as_str());
                why.append(": ");
                why.append(err.as_str());
                Err(Error::InvalidConfig(why))
            },
        },
    }
}

/// A run that was listed is one that was read, and every one that was read is
/// listed: an unreadable record hides nothing but itself.
pub proof fn an_unreadable_record_hides_only_itself(
    found: Seq<Option<Record>>,
    records: Seq<Record>,
    record: Record,
)
    requires
        records.to_multiset() == readable(found).to_multiset(),
    ensures
        records.contains(record) <==> found.contains(Some(record)),
{
    broadcast use vstd::seq_lib::group_to_multiset_ensures;

    assert(records.contains(record) <==> records.to_multiset().count(record) > 0);
    assert(readable(found).contains(record) <==> readable(found).to_multiset().count(record) > 0);
    what_is_readable_was_found(found, record);
}

proof fn what_is_readable_was_found(found: Seq<Option<Record>>, record: Record)
    ensures
        readable(found).contains(record) <==> found.contains(Some(record)),
    decreases found.len(),
{
    if found.len() > 0 {
        let rest = found.drop_last();
        what_is_readable_was_found(rest, record);
        assert(found =~= rest.push(found.last()));
        if readable(found).contains(record) {
            if found.last() != Some(record) {
                let i = choose|i: int|
                    0 <= i < readable(found).len() && readable(found)[i] == record;
                assert(readable(rest)[i] == record);
                let k = choose|k: int| 0 <= k < rest.len() && rest[k] == Some(record);
                assert(found[k] == Some(record));
            } else {
                assert(found[found.len() - 1] == Some(record));
            }
        }
        if found.contains(Some(record)) {
            if found.last() == Some(record) {
                assert(readable(found)[readable(rest).len() as int] == record);
            } else {
                let k = choose|k: int| 0 <= k < found.len() && found[k] == Some(record);
                assert(rest[k] == Some(record));
                let i = choose|i: int| 0 <= i < readable(rest).len() && readable(rest)[i] == record;
                assert(readable(found)[i] == record);
            }
        }
    }
}

/// A run id names a directory of its own inside the state directory: it has no
/// separator in it and is no reference to a directory above.
pub proof fn a_run_id_stays_in_the_state_directory(run_id: Seq<char>)
    requires
        plain_name(run_id),
    ensures
        run_id.len() > 0,
        !run_id.contains('/'),
        !run_id.contains('\\'),
        !run_id.contains('.'),
{
}

} // verus!
