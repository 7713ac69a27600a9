//! The failure modes of a run, and the exit codes they map to.

use vstd::prelude::*;
use vstd::string::StringExecFns;

verus! {

/// What can go wrong running a graph.
#[derive(Debug)]
#[non_exhaustive]
pub enum Error {
    /// The graph config could not be read, parsed, or validated. Exits
    /// [`EXIT_INVALID_CONFIG`].
    InvalidConfig(String),
    /// A member failed or died. The event stream says which and why; this is the
    /// summary the process exits on. Exits [`EXIT_MEMBER_FAILED`].
    MemberFailed {
        /// The member that failed.
        member: String,
        /// Why, in one line.
        reason: String,
    },
}

/// Every member settled successfully.
pub const EXIT_SUCCESS: i32 = 0;

/// A member failed or died.
pub const EXIT_MEMBER_FAILED: i32 = 1;

/// The graph config is invalid.
pub const EXIT_INVALID_CONFIG: i32 = 2;

/// There was no controllable turn in flight: a fact an `interrupt` reports rather
/// than a failure of it.
pub const EXIT_NO_CONTROLLABLE_TURN: i32 = 3;

/// Whether `outcome` is what a check answers: accepted when `refusal` is `None`,
/// and refused as an invalid config saying exactly that otherwise.
pub open spec fn answers<T>(outcome: Result<T, Error>, refusal: Option<Seq<char>>) -> bool {
    match refusal {
        None => outcome is Ok,
        Some(why) => outcome matches Err(Error::InvalidConfig(text)) && text@ == why,
    }
}

impl Error {
    /// What this failure reads as.
    pub open spec fn said(self) -> Seq<char> {
        match self {
            Error::InvalidConfig(text) => "invalid config: "@ + text@,
            Error::MemberFailed { member, reason } => "member '"@ + member@ + "' failed: "@
                + reason@,
        }
    }

    /// This failure, as one line of text.
    pub fn message(&self) -> (text: String)
        ensures
            text@ == self.said(),
    {
        match self {
            Error::InvalidConfig(text) => {
                let mut said = String::from_str("invalid config: ");
                said.append(text.as_str());
                said
            },
            Error::MemberFailed { member, reason } => {
                let mut said = String::from_str("member '");
                said.append(member.as_str());
                said.append("' failed: ");
                said.append(reason.as_str());
                said
            },
        }
    }

    /// The code a process that failed this way exits with.
    pub fn exit_code(&self) -> (code: i32)
        ensures
            code == match self {
                Error::InvalidConfig(_) => EXIT_INVALID_CONFIG,
                Error::MemberFailed { .. } => EXIT_MEMBER_FAILED,
            },
    {
        match self {
            Error::InvalidConfig(_) => EXIT_INVALID_CONFIG,
            Error::MemberFailed { .. } => EXIT_MEMBER_FAILED,
        }
    }
}

} // verus!
