//! The failures that end an invocation.

use vstd::prelude::*;
use vstd::string::StringExecFns;

verus! {

/// A failure that is reported to the user.  Trouble with the tunnel tool is
/// none: a probe that fails means that no tunnel is up, and a command that
/// fails shows in the next probe.
#[derive(Clone, Copy, Debug, PartialEq, Eq, Structural)]
pub enum Error {
    /// The configuration directory could not be listed.
    DirectoryUnreadable,
    /// The state file or its directory could not be written.
    StoreWriteFailure,
}

/// What the user is told of `error`.
pub open spec fn description_of(error: Error) -> Seq<char> {
    match error {
        Error::DirectoryUnreadable => "the configuration directory cannot be read"@,
        Error::StoreWriteFailure => "the selection cannot be saved"@,
    }
}

/// What the user is told of `error` when it struck at `path`: the
/// description, a colon, and the path.
pub open spec fn message_of(error: Error, path: Seq<char>) -> Seq<char> {
    description_of(error) + ": "@ + path
}

/// A failure together with all that the user is told of it.
#[derive(Debug, PartialEq, Eq)]
pub struct Failure {
    /// What went wrong.
    pub error: Error,
    /// The message for the user, which names the path that could not be
    /// read or written.
    pub message: String,
}

/// A [`Failure`] as plain values.
pub struct FailureView {
    pub error: Error,
    pub message: Seq<char>,
}

impl View for Failure {
    type V = FailureView;

    open spec fn view(&self) -> FailureView {
        FailureView { error: self.error, message: self.message@ }
    }
}

/// The failure that `error` makes when it strikes at `path`.
pub open spec fn failure_at(error: Error, path: Seq<char>) -> FailureView {
    FailureView { error, message: message_of(error, path) }
}

impl Error {
    /// Describes the failure in words.
    pub fn description(&self) -> (text: String)
        ensures
            text@ == description_of(*self),
    {
        match self {
            Error::DirectoryUnreadable => "the configuration directory cannot be read".to_owned(),
            Error::StoreWriteFailure => "the selection cannot be saved".to_owned(),
        }
    }

    /// The failure that this error makes at `path`: the directory that could
    /// not be listed, or the file that could not be written.
    pub fn at(&self, path: &str) -> (failure: Failure)
        ensures
            failure@ == failure_at(*self, path@),
    {
        let mut message = self.description();
        message.append(": ");
        message.append(path);
        Failure { error: *self, message }
    }
}

} // verus!
