//! The pipeline as a whole, over a model of the disk: what the pieces of
//! this crate come to when each file is there, or is not, and stays so.
//!
//! Nothing here runs. These are statements about the dealing of jobs, the
//! reader and the consumer taken together.

use vstd::prelude::*;
use crate::consumer::{element_of, run, Cursor, EventView, StepView};
use crate::outcome::{outcome_path, FailureKind, FileErrorView, OutcomeView};
use crate::partition::{
    chunk, chunk_len, lemma_one_result_per_item, lemma_round_robin_keeps_items, round_robin,
    worker_results,
};
use crate::reader::{
    expected_bytes, faithful_outcome, lemma_truncation, reader_step, ReaderActionView,
    ReaderEventView, ReaderState,
};

verus! {

/// The outcome owed for `path` when `found` is what opening it leads to: the
/// file's bytes, cut to the cap where the cap is smaller, or the failed open
/// with its cause.
pub open spec fn job_outcome(
    found: Result<Seq<u8>, Seq<char>>,
    requested_size: usize,
    path: Seq<char>,
) -> OutcomeView {
    match found {
        Ok(contents) => Ok((path, expected_bytes(contents, requested_size))),
        Err(cause) => Err(FileErrorView { kind: FailureKind::Open, path, cause }),
    }
}

/// The outcome owed for each path on a disk: `disk` says, for a path, what
/// the file there holds or why it cannot be opened.
pub open spec fn outcome_on(
    disk: spec_fn(Seq<char>) -> Result<Seq<u8>, Seq<char>>,
    requested_size: usize,
) -> spec_fn(Seq<char>) -> OutcomeView {
    |path: Seq<char>| job_outcome(disk(path), requested_size, path)
}

/// The reader delivers what is owed: for a file that is there, the outcome
/// of carrying out its steps is `job_outcome`; for one that cannot be
/// opened, the failed open is. Either way the outcome carries the job's path.
pub proof fn lemma_reader_delivers_job_outcome(
    found: Result<Seq<u8>, Seq<char>>,
    requested_size: usize,
    path: Seq<char>,
)
    requires
        found matches Ok(contents) ==> contents.len() <= usize::MAX,
    ensures
        outcome_path(job_outcome(found, requested_size, path)) == path,
        match found {
            Ok(contents) => faithful_outcome(path, requested_size, contents)
                == ReaderActionView::Deliver(job_outcome(found, requested_size, path)),
            Err(cause) => reader_step(
                path,
                requested_size,
                ReaderState::Opening,
                ReaderEventView::Failed { cause },
            ) == (
                ReaderState::Finished,
                ReaderActionView::Deliver(job_outcome(found, requested_size, path)),
            ),
        },
{
    if let Ok(contents) = found {
        lemma_truncation(path, requested_size, contents);
    }
}

/// Every path is answered once: however many workers there are, the jobs
/// they are given are the paths given, the outcomes they produce are as many
/// as the paths, each is the outcome owed for the path of its job, and a path
/// that cannot be opened takes nothing away from the others.
pub proof fn lemma_every_path_is_answered_once(
    paths: Seq<Seq<char>>,
    workers: nat,
    requested_size: usize,
    disk: spec_fn(Seq<char>) -> Result<Seq<u8>, Seq<char>>,
)
    requires
        workers > 0,
    ensures
        round_robin(paths, workers).flatten().to_multiset() == paths.to_multiset(),
        worker_results(paths, workers, outcome_on(disk, requested_size)).flatten().len()
            == paths.len(),
        worker_results(paths, workers, outcome_on(disk, requested_size)).flatten().to_multiset()
            == paths.map_values(outcome_on(disk, requested_size)).to_multiset(),
        forall|i: int, k: int|
            0 <= i < workers && 0 <= k < chunk_len(paths.len(), workers, i as nat) ==> {
                let job = chunk(paths, workers, i as nat)[k];
                let outcome = #[trigger] worker_results(
                    paths,
                    workers,
                    outcome_on(disk, requested_size),
                )[i][k];
                outcome == job_outcome(disk(job), requested_size, job) && outcome_path(outcome)
                    == job
            },
{
    lemma_round_robin_keeps_items(paths, workers);
    lemma_one_result_per_item(paths, workers, outcome_on(disk, requested_size));
}

/// The number of workers does not change what is read: two worker counts
/// produce the same multiset of outcomes, and so the same successful
/// `(path, bytes)` pairs.
pub proof fn lemma_outcomes_independent_of_worker_count(
    paths: Seq<Seq<char>>,
    requested_size: usize,
    disk: spec_fn(Seq<char>) -> Result<Seq<u8>, Seq<char>>,
    workers_a: nat,
    workers_b: nat,
)
    requires
        workers_a > 0,
        workers_b > 0,
    ensures
        worker_results(paths, workers_a, outcome_on(disk, requested_size)).flatten().to_multiset()
            == worker_results(
            paths,
            workers_b,
            outcome_on(disk, requested_size),
        ).flatten().to_multiset(),
{
    lemma_one_result_per_item(paths, workers_a, outcome_on(disk, requested_size));
    lemma_one_result_per_item(paths, workers_b, outcome_on(disk, requested_size));
}

/// The events that the consumer sees when `arrived` are the outcomes in the
/// order they reached the channel, and the workers are done after the last.
pub open spec fn arrivals(arrived: Seq<OutcomeView>) -> Seq<EventView> {
    arrived.map_values(|outcome: OutcomeView| EventView::Outcome(outcome)).push(
        EventView::Disconnected,
    )
}

/// The stream of a finished run: the consumer yields one element for each
/// outcome that arrived, in arrival order, a failed job as an error among
/// the files, then ends the stream and stays at the end.
pub proof fn lemma_stream_of_a_finished_run(arrived: Seq<OutcomeView>)
    ensures
        run(Cursor::Active, arrivals(arrived)).0 == Cursor::Terminated,
        run(Cursor::Active, arrivals(arrived)).1 == arrived.map_values(
            |outcome: OutcomeView| element_of(outcome),
        ).push(StepView::Done),
{
    let events = arrived.map_values(|outcome: OutcomeView| EventView::Outcome(outcome));
    crate::consumer::lemma_outcomes_pass_through(events);
    assert(arrivals(arrived).drop_last() =~= events);
    assert(run(Cursor::Active, events).1 =~= arrived.map_values(
        |outcome: OutcomeView| element_of(outcome),
    ));
}

} // verus!
