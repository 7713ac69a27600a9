//! Per-identity binding, utilization, and reset, as oneharness reports them.
//!
//! Nothing about identities is decided here: what this adds to oneharness's own
//! answer is a refusal that says why there is none.

use vstd::prelude::*;
use vstd::string::StringExecFns;

use crate::error::Error;

verus! {

/// What `health` says when oneharness refuses the sweep, carrying its own
/// diagnostic through untouched.
pub open spec fn refused(why: Seq<char>) -> Seq<char> {
    "oneharness cannot report on this host's identities: "@ + why
        + ". `health` is a free pre-flight read of oneharness's own data, so the only thing that refuses it is configuration it cannot load."@
}

/// One refusal, in the words `health` reports.
pub fn refusal(why: &str) -> (error: Error)
    ensures
        error matches Error::InvalidConfig(text) && text@ == refused(why@),
{
    let mut text = String::from_str("oneharness cannot report on this host's identities: ");
    text.append(why);
    text.append(
        ". `health` is a free pre-flight read of oneharness's own data, so the only thing that refuses it is configuration it cannot load.",
    );
    Error::InvalidConfig(text)
}

/// oneharness's own report, from what asking for it came to.
///
/// Nothing a harness does can fail the asking: a missing binary or a probe that
/// timed out is an identity in the report.
pub fn read<R>(reported: Result<R, String>) -> (report: Result<R, Error>)
    ensures
        match reported {
            Ok(found) => report == Ok::<R, Error>(found),
            Err(why) => report matches Err(Error::InvalidConfig(text)) && text@ == refused(why@),
        },
{
    match reported {
        Ok(found) => Ok(found),
        Err(why) => Err(refusal(why.as_str())),
    }
}

} // verus!
