//! What can go wrong at the store, and the message that reports it.

use vstd::prelude::*;

verus! {

/// The kinds of failure.
#[derive(Debug, Clone, Copy, PartialEq, Eq, Structural)]
pub enum ErrorKind {
    /// A directory or file could not be found, created, read or written.
    Io,
    /// Stored content does not have the expected form.
    Parse,
    /// A value could not be encoded.
    Serialize,
}

/// The step that failed.
#[derive(Debug, Clone, Copy, PartialEq, Eq, Structural)]
pub enum Failure {
    FindDataDir,
    CreateDataDir,
    ReadConfig,
    ParseConfig,
    SerializeConfig,
    WriteConfig,
    ReadWeek,
    ParseWeek,
    SerializeWeek,
    WriteWeek,
    WriteReport,
}

impl Failure {
    /// The kind of this failure.
    pub open spec fn kind_of(self) -> ErrorKind {
        match self {
            Failure::ParseConfig | Failure::ParseWeek => ErrorKind::Parse,
            Failure::SerializeConfig | Failure::SerializeWeek => ErrorKind::Serialize,
            _ => ErrorKind::Io,
        }
    }

    /// What the message says before the cause.
    pub open spec fn headline(self) -> Seq<char> {
        match self {
            Failure::FindDataDir => "Could not find app data directory"@,
            Failure::CreateDataDir => "Could not create app directory"@,
            Failure::ReadConfig => "Could not read config file"@,
            Failure::ParseConfig => "Could not parse config file"@,
            Failure::SerializeConfig => "Could not serialize config"@,
            Failure::WriteConfig => "Could not write config file"@,
            Failure::ReadWeek => "Could not read week file"@,
            Failure::ParseWeek => "Could not parse week file"@,
            Failure::SerializeWeek => "Could not serialize week data"@,
            Failure::WriteWeek => "Could not write week file"@,
            Failure::WriteReport => "Could not write report file"@,
        }
    }

    /// The message for this failure with the cause `cause`: the headline, a
    /// colon and the cause. A missing data directory has no cause to name.
    pub open spec fn message_of(self, cause: Seq<char>) -> Seq<char> {
        if self == Failure::FindDataDir {
            self.headline()
        } else {
            self.headline() + ": "@ + cause
        }
    }

    /// The kind of this failure.
    pub fn kind(&self) -> (kind: ErrorKind)
        ensures
            kind == self.kind_of(),
    {
        match self {
            Failure::ParseConfig | Failure::ParseWeek => ErrorKind::Parse,
            Failure::SerializeConfig | Failure::SerializeWeek => ErrorKind::Serialize,
            _ => ErrorKind::Io,
        }
    }

    /// The human-readable message for this failure with the cause `cause`.
    pub fn message(&self, cause: &str) -> (text: String)
        ensures
            text@ == self.message_of(cause@),
    {
        let headline = match self {
            Failure::FindDataDir => "Could not find app data directory",
            Failure::CreateDataDir => "Could not create app directory",
            Failure::ReadConfig => "Could not read config file",
            Failure::ParseConfig => "Could not parse config file",
            Failure::SerializeConfig => "Could not serialize config",
            Failure::WriteConfig => "Could not write config file",
            Failure::ReadWeek => "Could not read week file",
            Failure::ParseWeek => "Could not parse week file",
            Failure::SerializeWeek => "Could not serialize week data",
            Failure::WriteWeek => "Could not write week file",
            Failure::WriteReport => "Could not write report file",
        };
        let mut text = String::from_str(headline);
        match self {
            Failure::FindDataDir => {},
            _ => {
                text.append(": ");
                text.append(cause);
            },
        }
        text
    }
}

/// A failure of the store as it is reported: the step that failed and the
/// cause that the system gave.
#[derive(Debug)]
pub struct StoreError {
    pub failure: Failure,
    pub cause: String,
}

/// What a reported failure holds.
pub struct StoreErrorView {
    pub failure: Failure,
    pub cause: Seq<char>,
}

impl View for StoreError {
    type V = StoreErrorView;

    open spec fn view(&self) -> StoreErrorView {
        StoreErrorView { failure: self.failure, cause: self.cause@ }
    }
}

impl StoreError {
    /// The failure of the step `failure` with the cause `cause`.
    pub fn new(failure: Failure, cause: &str) -> (error: Self)
        ensures
            error@ == (StoreErrorView { failure, cause: cause@ }),
    {
        StoreError { failure, cause: String::from_str(cause) }
    }

    /// The kind of this failure.
    pub fn kind(&self) -> (kind: ErrorKind)
        ensures
            kind == self@.failure.kind_of(),
    {
        self.failure.kind()
    }

    /// The human-readable message that reports this failure.
    pub fn message(&self) -> (text: String)
        ensures
            text@ == self@.failure.message_of(self@.cause),
    {
        self.failure.message(self.cause.as_str())
    }
}

} // verus!
