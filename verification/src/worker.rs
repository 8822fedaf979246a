//! The single background worker: its start-once gate, how it records job
//! outcomes, and the retry bound.

use vstd::prelude::*;

use crate::queue::{
    eligible, failed_item, fresh_item, running_item, ItemView, JobStatus, JobView, QueueService,
};

verus! {

/// The start transition of the worker gate: the new gate state, and whether
/// this call was the one that started the loop.
pub open spec fn start_transition(started: bool) -> (bool, bool) {
    (true, !started)
}

/// The start-once gate of the background worker loop.
pub struct WorkerGate {
    started: bool,
}

impl WorkerGate {
    /// Whether the background loop has been started.
    pub closed spec fn is_started(&self) -> bool {
        self.started
    }

    /// A gate whose worker has not started yet.
    pub fn new() -> (g: Self)
        ensures
            !g.is_started(),
    {
        WorkerGate { started: false }
    }

    /// Claims the right to start the background loop. Only the first call
    /// returns true; every later start request is a no-op.
    pub fn try_start(&mut self) -> (started_now: bool)
        ensures
            (final(self).is_started(), started_now) == start_transition(old(self).is_started()),
    {
        let was = self.started;
        self.started = true;
        !was
    }
}

/// LAW. Requesting a start twice never starts a second loop: whatever the
/// gate state, the call after a start request reports that it started
/// nothing.
pub proof fn lemma_start_idempotent(started: bool)
    ensures
        start_transition(start_transition(started).0).1 == false,
{
}

/// Records the outcome of one executed job, as the worker does after a
/// render or upload returns: success removes the entry at `index`, failure
/// marks it `Failed` with the message and one more retry. A stale index is a
/// silent no-op either way.
pub fn record_outcome(q: &mut QueueService, index: usize, outcome: Result<String, String>)
    requires
        (outcome is Err && index < old(q).items().len()) ==> old(q).items()[
            index as int
        ].retries < u32::MAX,
    ensures
        outcome is Ok ==> (if index < old(q).items().len() {
            final(q).items() == old(q).items().remove(index as int)
        } else {
            final(q).items() == old(q).items()
        }),
        outcome matches Err(e) ==> (if index < old(q).items().len() {
            final(q).items() == old(q).items().update(
                index as int,
                failed_item(old(q).items()[index as int], e@),
            )
        } else {
            final(q).items() == old(q).items()
        }),
        final(q).spec_paused() == old(q).spec_paused(),
        final(q).wake_pending() == old(q).wake_pending(),
{
    match outcome {
        Ok(_) => q.mark_complete(index),
        Err(e) => q.mark_failed(index, e),
    }
}

/// One failed attempt of an entry: it is selected (flipped to `Running`) and
/// the failure is then recorded with `msg`.
pub open spec fn attempt_cycle(it: ItemView, msg: Seq<char>) -> ItemView {
    failed_item(running_item(it), msg)
}

/// The entry for `job` after `k` failed attempts.
pub open spec fn after_failures(job: JobView, msg: Seq<char>, k: nat) -> ItemView
    decreases k,
{
    if k == 0 {
        fresh_item(job)
    } else {
        attempt_cycle(after_failures(job, msg, (k - 1) as nat), msg)
    }
}

/// LAW. The retry bound. A job that fails on every attempt is selected by
/// `dequeue(true, max_retries)` exactly while its retry count is below the
/// bound: after `k` failed attempts it carries `k` retries and is eligible
/// again iff `k == 0` (still `Pending`) or `k < max_retries`. So the entry
/// is attempted once when `max_retries == 0`, and exactly `max_retries`
/// times otherwise, after which it stays `Failed` and is never selected.
pub proof fn lemma_retry_bound(job: JobView, msg: Seq<char>, max_retries: u32, k: nat)
    requires
        k <= u32::MAX,
    ensures
        after_failures(job, msg, k).retries == k,
        after_failures(job, msg, k).status == (if k == 0 {
            JobStatus::Pending
        } else {
            JobStatus::Failed
        }),
        eligible(after_failures(job, msg, k), true, max_retries) <==> (k == 0 || k
            < max_retries),
    decreases k,
{
    if k > 0 {
        lemma_retry_bound(job, msg, max_retries, (k - 1) as nat);
    }
}

} // verus!
