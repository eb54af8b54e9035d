//! Errors of the engine.

use vstd::prelude::*;
use vstd::string::StringExecFns;

verus! {

/// What can go wrong while ingesting a trace or serving a session.
#[derive(Debug, Clone, Copy, PartialEq, Eq, Structural, Hash)]
pub enum Error {
    /// A malformed or out-of-order dump record; the record is skipped.
    ParseError,
    /// A death for an allocation that was never born; the event is skipped.
    UnknownAllocation,
    /// A second birth for an allocation that already has a record; the event is skipped.
    DuplicateAllocation,
    /// An interned-value identifier that was never issued; this reveals a bug.
    UnknownUid,
    /// The dump directory is missing or unreadable; the process cannot start.
    DirectoryUnavailable,
    /// Reading from or writing to a client failed; only that session closes.
    SessionIoError,
    /// A client asked for something that cannot be done; nothing changes.
    InvalidClientCommand,
}

impl Error {
    /// True for the errors after which the process must stop.
    pub open spec fn spec_is_fatal(&self) -> bool {
        *self == Error::UnknownUid || *self == Error::DirectoryUnavailable
    }

    /// True for the errors after which the process must stop: all the others are recovered
    /// from by skipping a record, rejecting a command or closing one session.
    #[verifier::when_used_as_spec(spec_is_fatal)]
    pub fn is_fatal(&self) -> (res: bool)
        ensures
            res == self.spec_is_fatal(),
    {
        match self {
            Error::UnknownUid => true,
            Error::DirectoryUnavailable => true,
            _ => false,
        }
    }

    /// The text shown for each error.
    pub open spec fn spec_message(self) -> Seq<char> {
        match self {
            Error::ParseError => "malformed or out-of-order dump record"@,
            Error::UnknownAllocation => "death of an allocation that was never born"@,
            Error::DuplicateAllocation => "birth of an allocation that already exists"@,
            Error::UnknownUid => "unknown interned-value identifier"@,
            Error::DirectoryUnavailable => "dump directory is missing or unreadable"@,
            Error::SessionIoError => "session input/output failed"@,
            Error::InvalidClientCommand => "invalid client command"@,
        }
    }

    /// A short description fit for a log line or a rejection message.
    pub fn message(&self) -> (res: String)
        ensures
            res@ == self.spec_message(),
    {
        match self {
            Error::ParseError => String::from_str("malformed or out-of-order dump record"),
            Error::UnknownAllocation => String::from_str(
                "death of an allocation that was never born",
            ),
            Error::DuplicateAllocation => String::from_str(
                "birth of an allocation that already exists",
            ),
            Error::UnknownUid => String::from_str("unknown interned-value identifier"),
            Error::DirectoryUnavailable => String::from_str(
                "dump directory is missing or unreadable",
            ),
            Error::SessionIoError => String::from_str("session input/output failed"),
            Error::InvalidClientCommand => String::from_str("invalid client command"),
        }
    }
}

} // verus!
