//! The in-memory job queue and its status/retry state machine.
//!
//! `QueueService` owns the ordered list of queue entries together with the
//! pause gate and the single-slot wake signal. Every mutating operation
//! states exactly how the new queue relates to the old one; callers persist
//! the serialized queue (see `codec`) after each successful mutation.

use vstd::prelude::*;

verus! {

/// Scheduling state of one queue entry.
///
/// `Completed` is a logical terminal state realized by deleting the entry;
/// it can still appear in imported data.
#[derive(Clone, Copy, PartialEq, Eq, Structural, Debug)]
pub enum JobStatus {
    Pending,
    Running,
    Failed,
    Completed,
}

/// One unit of work: render only, or render and then publish.
///
/// `params` is an opaque render specification owned by the external renderer
/// and uploader; the queue round-trips it unchanged.
pub enum Job {
    Generate { params: String, dest: String },
    GenerateUpload { params: String, dest: String, thumbnail: Option<String> },
}

/// Spec-level shape of a `Job`, with every string as a character sequence.
pub enum JobView {
    Generate { params: Seq<char>, dest: Seq<char> },
    GenerateUpload { params: Seq<char>, dest: Seq<char>, thumbnail: Option<Seq<char>> },
}

impl View for Job {
    type V = JobView;

    open spec fn view(&self) -> JobView {
        match self {
            Job::Generate { params, dest } => JobView::Generate {
                params: params@,
                dest: dest@,
            },
            Job::GenerateUpload { params, dest, thumbnail } => JobView::GenerateUpload {
                params: params@,
                dest: dest@,
                thumbnail: match thumbnail {
                    Some(t) => Some(t@),
                    None => None,
                },
            },
        }
    }
}

impl Clone for Job {
    fn clone(&self) -> (res: Self)
        ensures
            res@ == self@,
    {
        match self {
            Job::Generate { params, dest } => Job::Generate {
                params: params.clone(),
                dest: dest.clone(),
            },
            Job::GenerateUpload { params, dest, thumbnail } => Job::GenerateUpload {
                params: params.clone(),
                dest: dest.clone(),
                thumbnail: thumbnail.clone(),
            },
        }
    }
}

/// A job together with its scheduling status, retry count and last error.
pub struct QueueItem {
    pub job: Job,
    pub status: JobStatus,
    pub retries: u32,
    pub error: Option<String>,
}

/// Spec-level shape of a `QueueItem`.
pub struct ItemView {
    pub job: JobView,
    pub status: JobStatus,
    pub retries: u32,
    pub error: Option<Seq<char>>,
}

impl View for QueueItem {
    type V = ItemView;

    open spec fn view(&self) -> ItemView {
        ItemView {
            job: self.job@,
            status: self.status,
            retries: self.retries,
            error: match &self.error {
                Some(e) => Some(e@),
                None => None,
            },
        }
    }
}

impl Clone for QueueItem {
    fn clone(&self) -> (res: Self)
        ensures
            res@ == self@,
    {
        QueueItem {
            job: self.job.clone(),
            status: self.status,
            retries: self.retries,
            error: self.error.clone(),
        }
    }
}

/// The views of a list of queue entries, in order.
pub open spec fn views_of(entries: Seq<QueueItem>) -> Seq<ItemView> {
    entries.map_values(|it: QueueItem| it@)
}

/// The view of an optional string.
pub open spec fn opt_view(o: Option<String>) -> Option<Seq<char>> {
    match o {
        Some(s) => Some(s@),
        None => None,
    }
}

/// The entry a fresh enqueue creates for `job`.
pub open spec fn fresh_item(job: JobView) -> ItemView {
    ItemView { job, status: JobStatus::Pending, retries: 0, error: None }
}

/// `it` flipped to `Running`, as `dequeue` leaves and returns it.
pub open spec fn running_item(it: ItemView) -> ItemView {
    ItemView { job: it.job, status: JobStatus::Running, retries: it.retries, error: it.error }
}

/// `it` after a recorded failure: `Failed`, one more retry, message stored.
pub open spec fn failed_item(it: ItemView, msg: Seq<char>) -> ItemView {
    ItemView {
        job: it.job,
        status: JobStatus::Failed,
        retries: (it.retries + 1) as u32,
        error: Some(msg),
    }
}

/// Whether `dequeue(retry_failed, max_retries)` may select `it`.
pub open spec fn eligible(it: ItemView, retry_failed: bool, max_retries: u32) -> bool {
    ||| it.status is Pending
    ||| (retry_failed && it.status is Failed && it.retries < max_retries)
}

/// Entries kept by `clear_completed`.
pub open spec fn keeps_active(it: ItemView) -> bool {
    it.status is Pending || it.status is Running
}

/// LAW. The single-worker invariant, first half: selecting the eligible
/// entry `i` from a queue with no `Running` entry leaves exactly one
/// `Running` entry, namely the selected one. This is the shape `dequeue`
/// gives the queue when the single worker is the only caller that flips
/// entries to `Running`.
pub proof fn lemma_single_running(items: Seq<ItemView>, i: int)
    requires
        0 <= i < items.len(),
        forall|j: int| 0 <= j < items.len() ==> !(#[trigger] items[j].status is Running),
    ensures
        ({
            let after = items.update(i, running_item(items[i]));
            forall|j: int|
                0 <= j < after.len() ==> ((#[trigger] after[j].status is Running) <==> j == i)
        }),
{
}

/// LAW. The single-worker invariant, second half: recording the outcome of
/// the one `Running` entry leaves a queue with no `Running` entry, whether
/// the entry is removed on success or marked `Failed` on failure.
pub proof fn lemma_running_cleared(items: Seq<ItemView>, i: int, msg: Seq<char>)
    requires
        0 <= i < items.len(),
        forall|j: int|
            0 <= j < items.len() ==> ((#[trigger] items[j].status is Running) <==> j == i),
    ensures
        forall|j: int|
            0 <= j < items.remove(i).len() ==> !(#[trigger] items.remove(i)[j].status
                is Running),
        forall|j: int|
            0 <= j < items.update(i, failed_item(items[i], msg)).len() ==> !(#[trigger] items.update(
                i,
                failed_item(items[i], msg),
            )[j].status is Running),
{
    let removed = items.remove(i);
    assert forall|j: int| 0 <= j < removed.len() implies !(#[trigger] removed[j].status
        is Running) by {
        if j < i {
            assert(removed[j] == items[j]);
        } else {
            assert(removed[j] == items[j + 1]);
        }
    }
}

/// The ordered job queue, the pause gate and the single-slot wake signal.
pub struct QueueService {
    entries: Vec<QueueItem>,
    paused: bool,
    wake_pending: bool,
}

impl QueueService {
    /// The views of the queued entries, front first.
    pub closed spec fn items(&self) -> Seq<ItemView> {
        views_of(self.entries@)
    }

    /// Whether the pause gate is set.
    pub closed spec fn spec_paused(&self) -> bool {
        self.paused
    }

    /// Whether a wake notification is pending for the worker.
    pub closed spec fn wake_pending(&self) -> bool {
        self.wake_pending
    }

    /// An empty, unpaused queue with no pending wake.
    pub fn new() -> (s: Self)
        ensures
            s.items() == Seq::<ItemView>::empty(),
            !s.spec_paused(),
            !s.wake_pending(),
    {
        let s = QueueService { entries: Vec::new(), paused: false, wake_pending: false };
        proof {
            assert(s.items() =~= Seq::<ItemView>::empty());
        }
        s
    }

    /// Appends a fresh `Pending` entry for `job` and fires the wake signal.
    pub fn enqueue(&mut self, job: Job)
        ensures
            final(self).items() == old(self).items().push(fresh_item(job@)),
            final(self).spec_paused() == old(self).spec_paused(),
            final(self).wake_pending(),
    {
        let ghost jv = job@;
        let item = QueueItem { job, status: JobStatus::Pending, retries: 0, error: None };
        self.entries.push(item);
        self.wake_pending = true;
        proof {
            assert(self.items() =~= old(self).items().push(fresh_item(jv)));
        }
    }

    /// External toggle for queue processing.
    pub fn set_paused(&mut self, val: bool)
        ensures
            final(self).spec_paused() == val,
            final(self).items() == old(self).items(),
            final(self).wake_pending() == old(self).wake_pending(),
    {
        self.paused = val;
    }

    /// Worker check for the paused state.
    pub fn is_paused(&self) -> (b: bool)
        ensures
            b == self.spec_paused(),
    {
        self.paused
    }

    /// Fires the wake signal; callers that unpause use this to rouse the worker.
    pub fn fire_wake(&mut self)
        ensures
            final(self).wake_pending(),
            final(self).items() == old(self).items(),
            final(self).spec_paused() == old(self).spec_paused(),
    {
        self.wake_pending = true;
    }

    /// Consumes the wake signal, reporting whether one was pending.
    pub fn take_wake(&mut self) -> (was_pending: bool)
        ensures
            was_pending == old(self).wake_pending(),
            !final(self).wake_pending(),
            final(self).items() == old(self).items(),
            final(self).spec_paused() == old(self).spec_paused(),
    {
        let was = self.wake_pending;
        self.wake_pending = false;
        was
    }

    /// Selects the first eligible entry, flips it to `Running`, and returns
    /// its index and a snapshot. Returns `None`, changing nothing, while the
    /// gate is paused or when no entry is eligible.
    pub fn dequeue(&mut self, retry_failed: bool, max_retries: u32) -> (r: Option<
        (usize, QueueItem),
    >)
        ensures
            final(self).spec_paused() == old(self).spec_paused(),
            final(self).wake_pending() == old(self).wake_pending(),
            r is None ==> final(self).items() == old(self).items(),
            r is None ==> (old(self).spec_paused() || forall|j: int|
                0 <= j < old(self).items().len() ==> !eligible(
                    old(self).items()[j],
                    retry_failed,
                    max_retries,
                )),
            r matches Some((i, item)) ==> {
                &&& !old(self).spec_paused()
                &&& i < old(self).items().len()
                &&& eligible(old(self).items()[i as int], retry_failed, max_retries)
                &&& forall|j: int|
                    0 <= j < i ==> !eligible(old(self).items()[j], retry_failed, max_retries)
                &&& item@ == running_item(old(self).items()[i as int])
                &&& final(self).items() == old(self).items().update(
                    i as int,
                    running_item(old(self).items()[i as int]),
                )
            },
            (r is Some) <==> (!old(self).spec_paused() && exists|j: int|
                0 <= j < old(self).items().len() && eligible(
                    old(self).items()[j],
                    retry_failed,
                    max_retries,
                )),
    {
        if self.paused {
            return None;
        }
        let n = self.entries.len();
        let mut i: usize = 0;
        while i < n
            invariant
                n == self.entries.len(),
                i <= n,
                *self == *old(self),
                !self.paused,
                forall|j: int| 0 <= j < i ==> !eligible(self.items()[j], retry_failed, max_retries),
            decreases n - i,
        {
            let eligible_here = {
                let it = &self.entries[i];
                it.status == JobStatus::Pending || (retry_failed && it.status == JobStatus::Failed
                    && it.retries < max_retries)
            };
            if eligible_here {
                let updated = {
                    let it = &self.entries[i];
                    QueueItem {
                        job: it.job.clone(),
                        status: JobStatus::Running,
                        retries: it.retries,
                        error: it.error.clone(),
                    }
                };
                let snapshot = updated.clone();
                proof {
                    assert(updated@ == running_item(old(self).items()[i as int]));
                }
                self.entries.set(i, updated);
                proof {
                    assert(self.items() =~= old(self).items().update(
                        i as int,
                        running_item(old(self).items()[i as int]),
                    ));
                    assert(eligible(old(self).items()[i as int], retry_failed, max_retries));
                }
                return Some((i, snapshot));
            }
            proof {
                assert(!eligible(self.items()[i as int], retry_failed, max_retries));
            }
            i += 1;
        }
        None
    }

    /// Removes the entry at `index`; a stale index is a silent no-op.
    pub fn mark_complete(&mut self, index: usize)
        ensures
            index < old(self).items().len() ==> final(self).items() == old(self).items().remove(
                index as int,
            ),
            index >= old(self).items().len() ==> final(self).items() == old(self).items(),
            final(self).spec_paused() == old(self).spec_paused(),
            final(self).wake_pending() == old(self).wake_pending(),
    {
        if index < self.entries.len() {
            self.entries.remove(index);
            proof {
                assert(self.items() =~= old(self).items().remove(index as int));
            }
        }
    }

    /// Records a failure for the entry at `index`: status `Failed`, retry
    /// count incremented, message stored. A stale index is a silent no-op.
    pub fn mark_failed(&mut self, index: usize, error: String)
        requires
            index < old(self).items().len() ==> old(self).items()[index as int].retries
                < u32::MAX,
        ensures
            index < old(self).items().len() ==> final(self).items() == old(self).items().update(
                index as int,
                failed_item(old(self).items()[index as int], error@),
            ),
            index >= old(self).items().len() ==> final(self).items() == old(self).items(),
            final(self).spec_paused() == old(self).spec_paused(),
            final(self).wake_pending() == old(self).wake_pending(),
    {
        if index < self.entries.len() {
            let updated = {
                let it = &self.entries[index];
                QueueItem {
                    job: it.job.clone(),
                    status: JobStatus::Failed,
                    retries: it.retries + 1,
                    error: Some(error),
                }
            };
            self.entries.set(index, updated);
            proof {
                assert(self.items() =~= old(self).items().update(
                    index as int,
                    failed_item(old(self).items()[index as int], error@),
                ));
            }
        }
    }

    /// Removes the entry at `index`; a stale index is a silent no-op.
    pub fn remove_job(&mut self, index: usize)
        ensures
            index < old(self).items().len() ==> final(self).items() == old(self).items().remove(
                index as int,
            ),
            index >= old(self).items().len() ==> final(self).items() == old(self).items(),
            final(self).spec_paused() == old(self).spec_paused(),
            final(self).wake_pending() == old(self).wake_pending(),
    {
        if index < self.entries.len() {
            self.entries.remove(index);
            proof {
                assert(self.items() =~= old(self).items().remove(index as int));
            }
        }
    }

    /// Moves the entry at `from` so that it sits at `to`. A no-op when the
    /// indices are equal or either is out of range.
    pub fn move_job(&mut self, from: usize, to: usize)
        ensures
            (from < old(self).items().len() && to < old(self).items().len() && from != to)
                ==> final(self).items() == old(self).items().remove(from as int).insert(
                to as int,
                old(self).items()[from as int],
            ),
            !(from < old(self).items().len() && to < old(self).items().len() && from != to)
                ==> final(self).items() == old(self).items(),
            final(self).spec_paused() == old(self).spec_paused(),
            final(self).wake_pending() == old(self).wake_pending(),
    {
        let len = self.entries.len();
        if from < len && to < len && from != to {
            let item = self.entries.remove(from);
            self.entries.insert(to, item);
            proof {
                assert(self.items() =~= old(self).items().remove(from as int).insert(
                    to as int,
                    old(self).items()[from as int],
                ));
            }
        }
    }

    /// A snapshot copy of every entry, front first.
    pub fn peek_all(&self) -> (r: Vec<QueueItem>)
        ensures
            views_of(r@) == self.items(),
    {
        let mut out: Vec<QueueItem> = Vec::new();
        let n = self.entries.len();
        let mut i: usize = 0;
        while i < n
            invariant
                n == self.entries.len(),
                i <= n,
                views_of(out@) =~= self.items().take(i as int),
            decreases n - i,
        {
            let c = self.entries[i].clone();
            proof {
                assert(c@ == self.items()[i as int]);
            }
            let ghost prev = out@;
            out.push(c);
            proof {
                assert(views_of(out@) =~= views_of(prev).push(c@));
                assert(self.items().take(i + 1 as int) =~= self.items().take(i as int).push(
                    self.items()[i as int],
                ));
            }
            i += 1;
        }
        proof {
            assert(self.items().take(n as int) =~= self.items());
        }
        out
    }

    /// Drops every entry.
    pub fn clear_queue(&mut self)
        ensures
            final(self).items() == Seq::<ItemView>::empty(),
            final(self).spec_paused() == old(self).spec_paused(),
            final(self).wake_pending() == old(self).wake_pending(),
    {
        self.entries.clear();
        proof {
            assert(self.items() =~= Seq::<ItemView>::empty());
        }
    }

    /// Retains only `Pending` and `Running` entries.
    pub fn clear_completed(&mut self)
        ensures
            final(self).items() == old(self).items().filter(|it: ItemView| keeps_active(it)),
            final(self).spec_paused() == old(self).spec_paused(),
            final(self).wake_pending() == old(self).wake_pending(),
    {
        let mut kept: Vec<QueueItem> = Vec::new();
        let n = self.entries.len();
        let mut i: usize = 0;
        while i < n
            invariant
                n == self.entries.len(),
                *self == *old(self),
                i <= n,
                views_of(kept@) =~= self.items().take(i as int).filter(
                    |it: ItemView| keeps_active(it),
                ),
            decreases n - i,
        {
            let keep = {
                let it = &self.entries[i];
                it.status == JobStatus::Pending || it.status == JobStatus::Running
            };
            proof {
                assert(self.items().take(i + 1 as int).drop_last() =~= self.items().take(i as int));
                assert(self.items().take(i + 1 as int).last() == self.items()[i as int]);
                reveal_with_fuel(Seq::filter, 2);
            }
            if keep {
                kept.push(self.entries[i].clone());
                proof {
                    assert(views_of(kept@) =~= self.items().take(i as int).filter(
                        |it: ItemView| keeps_active(it),
                    ).push(self.items()[i as int]));
                }
            }
            i += 1;
        }
        self.entries = kept;
        proof {
            assert(old(self).items().take(n as int) =~= old(self).items());
        }
    }

    /// Drops every `Failed` entry.
    pub fn clear_failed(&mut self)
        ensures
            final(self).items() == old(self).items().filter(
                |it: ItemView| !(it.status is Failed),
            ),
            final(self).spec_paused() == old(self).spec_paused(),
            final(self).wake_pending() == old(self).wake_pending(),
    {
        let mut kept: Vec<QueueItem> = Vec::new();
        let n = self.entries.len();
        let mut i: usize = 0;
        while i < n
            invariant
                n == self.entries.len(),
                *self == *old(self),
                i <= n,
                views_of(kept@) =~= self.items().take(i as int).filter(
                    |it: ItemView| !(it.status is Failed),
                ),
            decreases n - i,
        {
            let keep = {
                let it = &self.entries[i];
                !(it.status == JobStatus::Failed)
            };
            proof {
                assert(self.items().take(i + 1 as int).drop_last() =~= self.items().take(i as int));
                assert(self.items().take(i + 1 as int).last() == self.items()[i as int]);
                reveal_with_fuel(Seq::filter, 2);
            }
            if keep {
                kept.push(self.entries[i].clone());
                proof {
                    assert(views_of(kept@) =~= self.items().take(i as int).filter(
                        |it: ItemView| !(it.status is Failed),
                    ).push(self.items()[i as int]));
                }
            }
            i += 1;
        }
        self.entries = kept;
        proof {
            assert(old(self).items().take(n as int) =~= old(self).items());
        }
    }

    /// The on-disk queue file text for the current queue state.
    pub fn serialized(&self) -> (r: String)
        ensures
            r@ == crate::codec::ser_queue(self.items()),
    {
        crate::codec::serialize_queue(&self.entries)
    }

    /// Replaces the queue with `items`, or appends them when `append` is set.
    pub fn import_items(&mut self, items: Vec<QueueItem>, append: bool)
        ensures
            append ==> final(self).items() == old(self).items() + views_of(items@),
            !append ==> final(self).items() == views_of(items@),
            final(self).spec_paused() == old(self).spec_paused(),
            final(self).wake_pending() == old(self).wake_pending(),
    {
        let ghost incoming = items@;
        if append {
            let mut items = items;
            self.entries.append(&mut items);
            proof {
                assert(self.items() =~= old(self).items() + views_of(incoming));
            }
        } else {
            self.entries = items;
        }
    }
}

} // verus!
