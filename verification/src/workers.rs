//! Who reads what, and where: one plan per worker that has something to do.

use vstd::prelude::*;
use crate::partition::{chunk, lemma_chunk_empty_iff, partition, spec_worker_count};

verus! {

/// The work of one worker thread.
#[derive(Debug, PartialEq, Eq)]
pub struct WorkerPlan {
    /// The worker's number: the index of its chunk.
    pub index: usize,
    /// The identifier of the core to pin the thread to, if any.
    pub core: Option<usize>,
    /// The files to read, in the order given.
    pub jobs: Vec<String>,
}

/// The core for the worker numbered `index`, out of the cores that were
/// detected: the workers go round the list, and with an empty list nobody is
/// pinned.
pub open spec fn spec_core_for(index: nat, cores: Seq<usize>) -> Option<usize> {
    if cores.len() == 0 {
        None
    } else {
        Some(cores[(index % cores.len()) as int])
    }
}

/// The number of workers that get a plan: those whose chunk is not empty.
pub open spec fn active_workers(total: nat, workers: nat) -> nat {
    if total < workers {
        total
    } else {
        workers
    }
}

/// `plans` deals `files` out to `workers` workers: there is one plan for each
/// chunk that is not empty, in chunk order, numbered by its chunk and holding
/// exactly that chunk.
pub open spec fn deals(plans: Seq<WorkerPlan>, files: Seq<String>, workers: nat) -> bool {
    &&& plans.len() == active_workers(files.len(), workers)
    &&& forall|i: int|
        0 <= i < plans.len() ==> (#[trigger] plans[i]).index == i && plans[i].jobs@ == chunk(
            files,
            workers,
            i as nat,
        )
}

/// Every plan in `plans` names the core that `spec_core_for` gives its worker.
pub open spec fn pinned_by(plans: Seq<WorkerPlan>, cores: Seq<usize>) -> bool {
    forall|i: int|
        0 <= i < plans.len() ==> (#[trigger] plans[i]).core == spec_core_for(
            plans[i].index as nat,
            cores,
        )
}

/// Picks the core for the worker numbered `index`.
pub fn core_for(index: usize, cores: &Vec<usize>) -> (core: Option<usize>)
    ensures
        core == spec_core_for(index as nat, cores@),
{
    if cores.len() == 0 {
        None
    } else {
        Some(cores[index % cores.len()])
    }
}

/// Plans the workers for `files`, given the identifiers of the cores that
/// threads may be pinned to.
///
/// The files are dealt out round-robin to `max(requested_workers, 1)`
/// chunks. A chunk with no file gets no plan; every other chunk gets one,
/// numbered by the chunk and pinned as `spec_core_for` says.
pub fn assign_workers(files: Vec<String>, requested_workers: usize, cores: &Vec<usize>) -> (plans:
    Vec<WorkerPlan>)
    ensures
        deals(plans@, files@, spec_worker_count(requested_workers)),
        pinned_by(plans@, cores@),
{
    let ghost items = files@;
    let ghost workers = spec_worker_count(requested_workers);
    let chunks = partition(files, requested_workers);
    let ghost dealt = chunks@;
    let mut plans: Vec<WorkerPlan> = Vec::new();
    let mut index: usize = 0;
    for jobs in it: chunks.into_iter()
        invariant
            workers > 0,
            dealt.len() == workers,
            workers <= usize::MAX,
            it.seq() == dealt,
            index == it.index(),
            forall|i: int| 0 <= i < workers ==> (#[trigger] dealt[i])@ == chunk(items, workers, i as nat),
            plans@.len() == active_workers(items.len(), index as nat),
            forall|i: int|
                0 <= i < plans@.len() ==> (#[trigger] plans@[i]).index == i && plans@[i].jobs@
                    == chunk(items, workers, i as nat),
            pinned_by(plans@, cores@),
    {
        proof {
            lemma_chunk_empty_iff(items.len(), workers, index as nat);
            assert(jobs == dealt[index as int]);
        }
        if jobs.len() > 0 {
            let core = core_for(index, cores);
            plans.push(WorkerPlan { index, core, jobs });
        }
        index += 1;
    }
    plans
}

/// Trusted: calls `core_affinity::get_core_ids` and keeps the identifier of
/// each core it reports. Nothing is claimed about the answer: it depends on
/// the machine and on the affinity of the calling thread.
#[verifier::external_body]
fn detected_core_ids() -> Option<Vec<usize>> {
    core_affinity::get_core_ids().map(|cores| cores.into_iter().map(|core| core.id).collect())
}

/// Plans the workers for `files` on this machine.
///
/// The cores are those that the operating system lets the calling thread run
/// on; where they cannot be had, no worker is pinned. Whatever they are, the
/// plans deal the files out as for [`assign_workers`], and they are pinned
/// by one list of cores.
pub fn plan_workers(files: Vec<String>, requested_workers: usize) -> (plans: Vec<WorkerPlan>)
    ensures
        deals(plans@, files@, spec_worker_count(requested_workers)),
        exists|cores: Seq<usize>| pinned_by(plans@, cores),
{
    let cores = match detected_core_ids() {
        Some(ids) => ids,
        None => Vec::new(),
    };
    let plans = assign_workers(files, requested_workers, &cores);
    assert(pinned_by(plans@, cores@));
    plans
}

} // verus!
