//! What reading one file can come to, and what the consumer is handed.

use vstd::prelude::*;
use vstd::string::StringExecFns;

verus! {

/// A successful read: the path and the bytes read from it.
pub type ReadResult = (String, Vec<u8>);

/// The step of reading a file at which it failed.
#[derive(Clone, Copy, Debug, PartialEq, Eq, Structural)]
pub enum FailureKind {
    /// The file could not be opened.
    Open,
    /// The file was open, but its length or its bytes could not be had.
    Read,
}

/// The failure of one job. It concerns that job alone.
#[derive(Clone, Debug, PartialEq, Eq)]
pub struct FileError {
    pub kind: FailureKind,
    /// The path of the job that failed.
    pub path: String,
    /// What the operating system said.
    pub cause: String,
}

/// What one job comes to: its bytes, or the reason there are none.
pub type ReadOutcome = Result<ReadResult, FileError>;

/// Why the consumer is handed an error instead of a file.
#[derive(Clone, Debug, PartialEq, Eq)]
pub enum FetchError {
    /// One job failed; the stream goes on.
    File(FileError),
    /// The host asked to stop; the stream is over.
    Cancelled,
}

/// `FileError` as plain values.
pub struct FileErrorView {
    pub kind: FailureKind,
    pub path: Seq<char>,
    pub cause: Seq<char>,
}

impl View for FileError {
    type V = FileErrorView;

    open spec fn view(&self) -> FileErrorView {
        FileErrorView { kind: self.kind, path: self.path@, cause: self.cause@ }
    }
}

/// `FetchError` as plain values.
pub enum FetchErrorView {
    File(FileErrorView),
    Cancelled,
}

impl View for FetchError {
    type V = FetchErrorView;

    open spec fn view(&self) -> FetchErrorView {
        match self {
            FetchError::File(e) => FetchErrorView::File(e@),
            FetchError::Cancelled => FetchErrorView::Cancelled,
        }
    }
}

/// `ReadOutcome` as plain values.
pub type OutcomeView = Result<(Seq<char>, Seq<u8>), FileErrorView>;

/// The plain values of an outcome.
pub open spec fn outcome_view(outcome: ReadOutcome) -> OutcomeView {
    match outcome {
        Ok((path, bytes)) => Ok((path@, bytes@)),
        Err(e) => Err(e@),
    }
}

/// The path that an outcome is about.
pub open spec fn outcome_path(outcome: OutcomeView) -> Seq<char> {
    match outcome {
        Ok((path, _)) => path,
        Err(e) => e.path,
    }
}

/// The words in front of the path in a failure's message.
pub open spec fn message_prefix(kind: FailureKind) -> Seq<char> {
    match kind {
        FailureKind::Open => "Failed to open file: "@,
        FailureKind::Read => "Failed to read file: "@,
    }
}

impl FileError {
    /// The message of this failure: what went wrong, then the path.
    pub open spec fn spec_message(&self) -> Seq<char> {
        message_prefix(self.kind) + self.path@
    }

    /// The message shown to the caller: what went wrong, then the path.
    pub fn message(&self) -> (text: String)
        ensures
            text@ == self.spec_message(),
    {
        let prefix = match self.kind {
            FailureKind::Open => "Failed to open file: ",
            FailureKind::Read => "Failed to read file: ",
        };
        String::from_str(prefix).concat(self.path.as_str())
    }
}

} // verus!
