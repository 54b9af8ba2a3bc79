//! Background jobs of the application and what is queued at start-up.

use vstd::prelude::*;

verus! {

/// A job of the background worker.
#[derive(Debug, Clone, PartialEq, Eq)]
pub enum Job {
    /// Post-process an ended session (memories, embeddings, assessment).
    Postprocess(String),
    /// Compute the embeddings still missing.
    Reembed,
}

/// An event sink that drops every event.
#[derive(Debug, Clone, Copy)]
pub struct NullSink;

/// `jobs` post-processes each session of `ended` in order and then
/// recomputes missing embeddings.
pub open spec fn recovery_jobs_spec(ended: Seq<String>, jobs: Seq<Job>) -> bool {
    &&& jobs.len() == ended.len() + 1
    &&& forall|i: int|
        0 <= i < ended.len() ==> (#[trigger] jobs[i] matches Job::Postprocess(sid) && sid@
            == ended[i]@)
    &&& jobs[ended.len() as int] is Reembed
}

/// The jobs queued at start-up: the post-processing of every ended session
/// (those left active were ended first), then the embedding recomputation.
pub fn recovery_jobs(ended: &[String]) -> (r: Vec<Job>)
    ensures
        recovery_jobs_spec(ended@, r@),
{
    let mut jobs: Vec<Job> = Vec::new();
    let mut i: usize = 0;
    while i < ended.len()
        invariant
            i <= ended.len(),
            jobs@.len() == i,
            forall|j: int|
                0 <= j < i ==> (#[trigger] jobs@[j] matches Job::Postprocess(sid) && sid@
                    == ended@[j]@),
        decreases ended.len() - i,
    {
        jobs.push(Job::Postprocess(ended[i].clone()));
        i = i + 1;
    }
    jobs.push(Job::Reembed);
    jobs
}

} // verus!
