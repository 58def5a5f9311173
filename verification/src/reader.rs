//! Reading one file: the decisions taken between the I/O steps.
//!
//! A [`FileReader`] never touches a file. It says which step comes next
//! (open, measure, read an exact number of bytes) and is told how that step
//! went; after at most three steps it delivers the job's outcome. Whoever
//! drives it performs the steps.

use vstd::prelude::*;
use crate::outcome::{outcome_path, FailureKind, FileError, FileErrorView, OutcomeView, ReadOutcome};

verus! {

/// How many bytes to read from a file of `file_len` bytes when at most
/// `requested_size` are wanted; a `requested_size` of zero means no cap.
pub open spec fn spec_read_len(file_len: nat, requested_size: nat) -> nat {
    if 0 < requested_size < file_len {
        requested_size
    } else {
        file_len
    }
}

/// The number of bytes to read: `requested_size` where that is a real cap
/// (positive and below the file's length), the whole file otherwise.
pub fn read_len(file_len: usize, requested_size: usize) -> (len: usize)
    ensures
        len == spec_read_len(file_len as nat, requested_size as nat),
{
    if requested_size > 0 && requested_size < file_len {
        requested_size
    } else {
        file_len
    }
}

/// Where a reader stands.
#[derive(Clone, Copy, Debug, PartialEq, Eq, Structural)]
pub enum ReaderState {
    /// The open was asked for and has not been answered.
    Opening,
    /// The file is open; its length was asked for.
    Measuring,
    /// An exact read of `read_len` bytes from the start of the file was asked for.
    Filling { read_len: usize },
    /// The outcome was delivered. Nothing more is expected.
    Finished,
}

/// How the step that a reader asked for went.
#[derive(Clone, Debug, PartialEq, Eq)]
pub enum ReaderEvent {
    /// The file is open.
    Opened,
    /// The file's metadata gave this length.
    Measured { file_len: usize },
    /// The exact read filled a buffer with these bytes.
    Filled { bytes: Vec<u8> },
    /// The step failed; a short read counts as a failed read.
    Failed { cause: String },
}

/// `ReaderEvent` as plain values.
pub enum ReaderEventView {
    Opened,
    Measured { file_len: usize },
    Filled { bytes: Seq<u8> },
    Failed { cause: Seq<char> },
}

impl View for ReaderEvent {
    type V = ReaderEventView;

    open spec fn view(&self) -> ReaderEventView {
        match self {
            ReaderEvent::Opened => ReaderEventView::Opened,
            ReaderEvent::Measured { file_len } => ReaderEventView::Measured { file_len: *file_len },
            ReaderEvent::Filled { bytes } => ReaderEventView::Filled { bytes: bytes@ },
            ReaderEvent::Failed { cause } => ReaderEventView::Failed { cause: cause@ },
        }
    }
}

/// What a reader wants done next.
#[derive(Debug, PartialEq, Eq)]
pub enum ReaderAction {
    /// Open the reader's path for reading.
    Open,
    /// Ask the open file for its length.
    Measure,
    /// Read exactly `len` bytes starting at `offset`, into a buffer of `len` bytes.
    ReadExact { offset: u64, len: usize },
    /// The job is over: hand this outcome on.
    Deliver(ReadOutcome),
}

/// `ReaderAction` as plain values.
pub enum ReaderActionView {
    Open,
    Measure,
    ReadExact { offset: u64, len: usize },
    Deliver(OutcomeView),
}

impl View for ReaderAction {
    type V = ReaderActionView;

    open spec fn view(&self) -> ReaderActionView {
        match self {
            ReaderAction::Open => ReaderActionView::Open,
            ReaderAction::Measure => ReaderActionView::Measure,
            ReaderAction::ReadExact { offset, len } => ReaderActionView::ReadExact {
                offset: *offset,
                len: *len,
            },
            ReaderAction::Deliver(outcome) => ReaderActionView::Deliver(
                crate::outcome::outcome_view(*outcome),
            ),
        }
    }
}

/// Whether `event` answers the step that a reader in `state` asked for. A
/// filled buffer answers an exact read only if it has the length asked for.
pub open spec fn is_expected(state: ReaderState, event: ReaderEventView) -> bool {
    match state {
        ReaderState::Opening => event is Opened || event is Failed,
        ReaderState::Measuring => event is Measured || event is Failed,
        ReaderState::Filling { read_len } => (event matches ReaderEventView::Filled { bytes }
            && bytes.len() == read_len) || event is Failed,
        ReaderState::Finished => false,
    }
}

/// The failure of the job for `path` at the step named by `kind`.
pub open spec fn failure(kind: FailureKind, path: Seq<char>, cause: Seq<char>) -> ReaderActionView {
    ReaderActionView::Deliver(Err(FileErrorView { kind, path, cause }))
}

/// One decision of the reader for `path` with cap `requested_size`: the next
/// state and what to do, for an event that `is_expected`.
///
/// - A failed open ends the job with an `Open` failure; a failed measure or a
///   failed read ends it with a `Read` failure. Nothing is tried twice.
/// - Once the length is known, the number of bytes to read is
///   `spec_read_len`. If that is zero the job ends at once with no bytes and
///   no read; otherwise exactly that many bytes are read from offset zero.
/// - The bytes of a successful read are the job's result.
pub open spec fn reader_step(
    path: Seq<char>,
    requested_size: usize,
    state: ReaderState,
    event: ReaderEventView,
) -> (ReaderState, ReaderActionView)
    recommends
        is_expected(state, event),
{
    match (state, event) {
        (ReaderState::Opening, ReaderEventView::Opened) => (
            ReaderState::Measuring,
            ReaderActionView::Measure,
        ),
        (ReaderState::Opening, ReaderEventView::Failed { cause }) => (
            ReaderState::Finished,
            failure(FailureKind::Open, path, cause),
        ),
        (ReaderState::Measuring, ReaderEventView::Measured { file_len }) => {
            let len = spec_read_len(file_len as nat, requested_size as nat);
            if len == 0 {
                (ReaderState::Finished, ReaderActionView::Deliver(Ok((path, Seq::empty()))))
            } else {
                (
                    ReaderState::Filling { read_len: len as usize },
                    ReaderActionView::ReadExact { offset: 0, len: len as usize },
                )
            }
        },
        (ReaderState::Filling { read_len }, ReaderEventView::Filled { bytes }) => (
            ReaderState::Finished,
            ReaderActionView::Deliver(Ok((path, bytes))),
        ),
        (_, ReaderEventView::Failed { cause }) => (
            ReaderState::Finished,
            failure(FailureKind::Read, path, cause),
        ),
        _ => (state, ReaderActionView::Open),
    }
}

/// The reader of one job.
#[derive(Debug)]
pub struct FileReader {
    /// The file to read.
    pub path: String,
    /// The cap on the bytes to read; zero for none.
    pub requested_size: usize,
    pub state: ReaderState,
}

impl FileReader {
    /// A reader for `path`, and its first request: to open the file.
    pub fn begin(path: String, requested_size: usize) -> (started: (FileReader, ReaderAction))
        ensures
            started.0.path == path,
            started.0.requested_size == requested_size,
            started.0.state == ReaderState::Opening,
            started.1@ == ReaderActionView::Open,
    {
        (FileReader { path, requested_size, state: ReaderState::Opening }, ReaderAction::Open)
    }

    /// Whether the job's outcome has been delivered.
    pub fn is_finished(&self) -> (done: bool)
        ensures
            done == (self.state == ReaderState::Finished),
    {
        match self.state {
            ReaderState::Finished => true,
            _ => false,
        }
    }

    /// Takes the answer to the last request and says what to do next.
    ///
    /// For an event that answers the pending request the reader moves as
    /// `reader_step` says. Any other event is refused: `None` comes back and
    /// the reader stays as it was.
    pub fn advance(&mut self, event: ReaderEvent) -> (action: Option<ReaderAction>)
        ensures
            final(self).path == old(self).path,
            final(self).requested_size == old(self).requested_size,
            is_expected(old(self).state, event@) ==> action.is_some() && (
                final(self).state,
                action.unwrap()@,
            ) == reader_step(
                old(self).path@,
                old(self).requested_size,
                old(self).state,
                event@,
            ),
            !is_expected(old(self).state, event@) ==> action.is_none() && final(self).state == old(
                self,
            ).state,
    {
        match self.state {
            ReaderState::Opening => match event {
                ReaderEvent::Opened => {
                    self.state = ReaderState::Measuring;
                    Some(ReaderAction::Measure)
                },
                ReaderEvent::Failed { cause } => Some(self.fail(FailureKind::Open, cause)),
                _ => None,
            },
            ReaderState::Measuring => match event {
                ReaderEvent::Measured { file_len } => {
                    let len = read_len(file_len, self.requested_size);
                    if len == 0 {
                        self.state = ReaderState::Finished;
                        Some(ReaderAction::Deliver(Ok((self.path.clone(), Vec::new()))))
                    } else {
                        self.state = ReaderState::Filling { read_len: len };
                        Some(ReaderAction::ReadExact { offset: 0, len })
                    }
                },
                ReaderEvent::Failed { cause } => Some(self.fail(FailureKind::Read, cause)),
                _ => None,
            },
            ReaderState::Filling { read_len } => match event {
                ReaderEvent::Filled { bytes } => {
                    if bytes.len() == read_len {
                        self.state = ReaderState::Finished;
                        Some(ReaderAction::Deliver(Ok((self.path.clone(), bytes))))
                    } else {
                        None
                    }
                },
                ReaderEvent::Failed { cause } => Some(self.fail(FailureKind::Read, cause)),
                _ => None,
            },
            ReaderState::Finished => None,
        }
    }

    /// Ends the job with a failure of the given kind.
    fn fail(&mut self, kind: FailureKind, cause: String) -> (action: ReaderAction)
        ensures
            final(self).path == old(self).path,
            final(self).requested_size == old(self).requested_size,
            final(self).state == ReaderState::Finished,
            action@ == failure(kind, old(self).path@, cause@),
    {
        self.state = ReaderState::Finished;
        ReaderAction::Deliver(Err(FileError { kind, path: self.path.clone(), cause }))
    }
}

/// The bytes that a file holding `contents` gives under a cap of
/// `requested_size`: its first `requested_size` bytes where that is a real
/// cap, all of them otherwise.
pub open spec fn expected_bytes(contents: Seq<u8>, requested_size: usize) -> Seq<u8> {
    contents.take(spec_read_len(contents.len(), requested_size as nat) as int)
}

/// What a reader ends with for a file that opens and holds `contents`, when
/// each step it asks for is carried out as asked: the open succeeds, the
/// length reported is that of `contents`, and an exact read of `len` bytes at
/// `offset` gives those bytes of `contents`.
pub open spec fn faithful_outcome(
    path: Seq<char>,
    requested_size: usize,
    contents: Seq<u8>,
) -> ReaderActionView {
    let opened = reader_step(path, requested_size, ReaderState::Opening, ReaderEventView::Opened);
    let measured = reader_step(
        path,
        requested_size,
        opened.0,
        ReaderEventView::Measured { file_len: contents.len() as usize },
    );
    match measured.1 {
        ReaderActionView::ReadExact { offset, len } => reader_step(
            path,
            requested_size,
            measured.0,
            ReaderEventView::Filled { bytes: contents.subrange(offset as int, offset + len) },
        ).1,
        other => other,
    }
}

/// The number of steps that a reader in `state` may still ask for.
pub open spec fn steps_left(state: ReaderState) -> nat {
    match state {
        ReaderState::Opening => 3,
        ReaderState::Measuring => 2,
        ReaderState::Filling { .. } => 1,
        ReaderState::Finished => 0,
    }
}

/// Truncation: a file of `L` bytes read under a cap `S` with `0 < S < L`
/// gives exactly its first `S` bytes; with `S == 0` or `S >= L` it gives all
/// of its bytes. Never more than the file holds, never more than the cap.
pub proof fn lemma_truncation(path: Seq<char>, requested_size: usize, contents: Seq<u8>)
    requires
        contents.len() <= usize::MAX,
    ensures
        faithful_outcome(path, requested_size, contents) == ReaderActionView::Deliver(
            Ok((path, expected_bytes(contents, requested_size))),
        ),
        0 < requested_size < contents.len() ==> expected_bytes(contents, requested_size).len()
            == requested_size && expected_bytes(contents, requested_size) == contents.take(
            requested_size as int,
        ),
        requested_size == 0 || requested_size >= contents.len() ==> expected_bytes(
            contents,
            requested_size,
        ) == contents,
{
    let len = spec_read_len(contents.len(), requested_size as nat);
    assert(contents.subrange(0, len as int) =~= contents.take(len as int));
    assert(contents.take(contents.len() as int) =~= contents);
    if len == 0 {
        assert(contents.take(0) =~= Seq::<u8>::empty());
    }
}

/// An empty file gives an empty buffer and no error, whatever the cap, and
/// no read is asked for.
pub proof fn lemma_empty_file(path: Seq<char>, requested_size: usize)
    ensures
        reader_step(
            path,
            requested_size,
            ReaderState::Measuring,
            ReaderEventView::Measured { file_len: 0 },
        ) == (ReaderState::Finished, ReaderActionView::Deliver(Ok((path, Seq::<u8>::empty())))),
        faithful_outcome(path, requested_size, Seq::<u8>::empty()) == ReaderActionView::Deliver(
            Ok((path, Seq::<u8>::empty())),
        ),
{
}

/// A file that cannot be opened ends its job at once with an `Open` failure
/// that carries the job's path and the cause given.
pub proof fn lemma_missing_file(path: Seq<char>, requested_size: usize, cause: Seq<char>)
    ensures
        reader_step(
            path,
            requested_size,
            ReaderState::Opening,
            ReaderEventView::Failed { cause },
        ) == (
            ReaderState::Finished,
            ReaderActionView::Deliver(Err(FileErrorView { kind: FailureKind::Open, path, cause })),
        ),
{
}

/// One outcome per job: every expected event brings the reader closer to
/// its end, so a job takes at most three steps and none is repeated; the
/// step that delivers is the one that finishes, what it delivers is about
/// the job's own path, and a finished reader expects nothing more.
pub proof fn lemma_one_outcome_per_job(
    path: Seq<char>,
    requested_size: usize,
    state: ReaderState,
    event: ReaderEventView,
)
    ensures
        state == ReaderState::Finished ==> !is_expected(state, event),
        is_expected(state, event) ==> ({
            let (next, action) = reader_step(path, requested_size, state, event);
            &&& steps_left(next) < steps_left(state)
            &&& (next == ReaderState::Finished <==> action is Deliver)
            &&& action matches ReaderActionView::Deliver(outcome) ==> outcome_path(outcome) == path
            &&& action matches ReaderActionView::ReadExact { offset, len } ==> offset == 0 && len > 0
                && next == (ReaderState::Filling { read_len: len }) && (requested_size > 0 ==> len
                <= requested_size)
        }),
{
}

} // verus!
