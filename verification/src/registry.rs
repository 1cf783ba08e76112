//! The job registry: the jobs of a running cron scheduler, each under a handle.
//!
//! The scheduler is the `async_cron_scheduler` crate's. Its handle keeps a
//! table of the jobs that were inserted through it and not removed; the
//! registry mirrors that table, and remembers for each handle the expression
//! and the notice the job was made with.

use crate::cron_text::{cron_accepts, parse_cron};
use crate::error::SchedulingError;
use crate::notice::{Notice, NoticeView};
use crate::switch::JobSwitch;
use async_cron_scheduler::{Job, JobId, Scheduler};
use chrono::offset::Local;
use cron::Schedule;
use slotmap::{Key, KeyData};
use std::sync::mpsc::{channel, Sender};
use tokio::runtime::Handle;
use vstd::prelude::*;

verus! {

/// The most jobs a scheduler takes: its table panics on the next insertion.
pub const MAX_JOBS: u64 = 4294967294;

/// The handle of an `async_cron_scheduler::Scheduler` on local time, with the
/// handle of the tokio runtime that its service runs on. The crate bounds the
/// scheduler's time zone by a trait of its own, which keeps Verus from
/// reading the type, so the handle stands behind this struct.
#[verifier::external_body]
pub struct CronScheduler {
    inner: Scheduler<Local>,
    runtime: Handle,
}

/// The handles of the jobs in the scheduler's table: for each job inserted
/// through this scheduler and not removed since, its key as `KeyData::as_ffi`
/// gives it.
pub uninterp spec fn scheduler_jobs(scheduler: CronScheduler) -> Set<u64>;

/// Calls `Scheduler::<Local>::launch` with `tokio::time::sleep` as the timer
/// and spawns the service on the current tokio runtime, found with
/// `Handle::try_current`. Without a current runtime nothing is launched and
/// the result is `None`. A launched scheduler's table is empty.
#[verifier::external_body]
fn scheduler_launch() -> (launched: Option<CronScheduler>)
    ensures
        launched matches Some(scheduler) ==> scheduler_jobs(scheduler) == Set::<u64>::empty(),
{
    let runtime = Handle::try_current().ok()?;
    let (inner, service) = Scheduler::<Local>::launch(tokio::time::sleep);
    runtime.spawn(service);
    Some(CronScheduler { inner, runtime })
}

/// Calls `Job::cron_schedule` and `Scheduler::insert`, in one step because
/// the job's type, like the scheduler's, cannot be named in verified code.
/// The job's command is `Notice::deliver_unless` on `notice`, `switch` and
/// `sink`, each time the job fires.
///
/// `Job::cron_schedule` unwraps the schedule's first upcoming occurrence, so
/// `Schedule::upcoming` is asked for one first and a schedule without one
/// makes no job. That test does not make the call safe. The clock moves
/// between the test and the unwrap, and the cron crate's search panics on
/// its own account: it unwraps each day's local midnight, which a clock
/// change at midnight takes away or doubles, and on a 29th of February it
/// may ask for a range of days that ends before it starts. None of that
/// depends on the arguments. So test and call run on the runtime's blocking
/// pool, through `Handle::spawn_blocking`, where a panic ends the pool's
/// task and never the caller. The task sends the job back over a channel; a
/// channel that closes without a job, as it does after a panic, after a
/// failed test and on a runtime that has shut down, gives `None`, and
/// nothing is inserted.
///
/// An inserted job gets a key that the table did not hold; the result is
/// that key as `KeyData::as_ffi` gives it. The table panics when it is full,
/// so the number of jobs is bounded.
#[verifier::external_body]
fn scheduler_insert(
    scheduler: &mut CronScheduler,
    schedule: Schedule,
    notice: Notice,
    switch: JobSwitch,
    sink: &Sender<Notice>,
) -> (inserted: Option<u64>)
    requires
        scheduler_jobs(*old(scheduler)).finite(),
        scheduler_jobs(*old(scheduler)).len() < MAX_JOBS,
    ensures
        match inserted {
            Some(handle) => !scheduler_jobs(*old(scheduler)).contains(handle) && scheduler_jobs(
                *final(scheduler),
            ) == scheduler_jobs(*old(scheduler)).insert(handle),
            None => scheduler_jobs(*final(scheduler)) == scheduler_jobs(*old(scheduler)),
        },
{
    let outlet = sink.clone();
    let (made, awaited) = channel();
    scheduler.runtime.spawn_blocking(move || {
        if schedule.upcoming(Local).next().is_some() {
            let _ = made.send(Job::<Local>::cron_schedule(schedule));
        }
    });
    let job = awaited.recv().ok()?;
    let id = scheduler.inner.insert(job, move |_id| { notice.deliver_unless(&switch, &outlet); });
    Some(id.0.data().as_ffi())
}

/// Calls `Scheduler::remove` with the key that `KeyData::from_ffi` makes of
/// `handle`. For the handle of a job in the table that is the job's own key,
/// and the job leaves the table.
#[verifier::external_body]
fn scheduler_remove(scheduler: &mut CronScheduler, handle: u64)
    requires
        scheduler_jobs(*old(scheduler)).contains(handle),
    ensures
        scheduler_jobs(*final(scheduler)) == scheduler_jobs(*old(scheduler)).remove(handle),
{
    scheduler.inner.remove(JobId(KeyData::from_ffi(handle).into()))
}

/// What a job was made with.
pub ghost struct JobEntry {
    pub cron: Seq<char>,
    pub notice: NoticeView,
}

/// One job of the registry: its handle and its switch.
struct JobSlot {
    handle: u64,
    switch: JobSwitch,
}

/// A launched scheduler and a record of its jobs.
pub struct JobRegistry {
    scheduler: CronScheduler,
    slots: Vec<JobSlot>,
    entries: Ghost<Map<u64, JobEntry>>,
}

impl JobRegistry {
    /// The jobs of the registry by handle.
    pub closed spec fn jobs(&self) -> Map<u64, JobEntry> {
        self.entries@
    }

    /// The record, the slots and the scheduler's table hold the same
    /// handles, each once.
    pub closed spec fn wf(&self) -> bool {
        &&& self.entries@.dom() == scheduler_jobs(self.scheduler)
        &&& self.entries@.dom().finite()
        &&& self.entries@.dom().len() == self.slots@.len()
        &&& self.slots@.len() <= MAX_JOBS
        &&& forall|i: int|
            0 <= i < self.slots@.len() ==> self.entries@.contains_key((#[trigger] self.slots@[i]).handle)
        &&& forall|h: u64| #[trigger]
            self.entries@.contains_key(h) ==> exists|i: int|
                0 <= i < self.slots@.len() && (#[trigger] self.slots@[i]).handle == h
        &&& forall|h: u64| #[trigger]
            self.entries@.contains_key(h) ==> cron_accepts(self.entries@[h].cron)
    }

    /// Every job was made from an accepted expression, and their number is
    /// within the scheduler's limit.
    pub proof fn lemma_jobs_accepted(&self)
        requires
            self.wf(),
        ensures
            self.jobs().dom().finite(),
            self.jobs().dom().len() <= MAX_JOBS,
            forall|h: u64| #[trigger]
                self.jobs().contains_key(h) ==> cron_accepts(self.jobs()[h].cron),
    {
    }

    /// Launches a scheduler whose background loop runs on the current tokio
    /// runtime and sleeps on that runtime's timer. `None` when no runtime is
    /// current.
    pub fn launch() -> (launched: Option<JobRegistry>)
        ensures
            launched matches Some(registry) ==> registry.wf() && registry.jobs() == Map::<
                u64,
                JobEntry,
            >::empty(),
    {
        JobRegistry::around(scheduler_launch())
    }

    /// The registry of a scheduler that was launched and has no job yet;
    /// none where none was launched.
    fn around(launched: Option<CronScheduler>) -> (registry: Option<JobRegistry>)
        requires
            launched matches Some(scheduler) ==> scheduler_jobs(scheduler) == Set::<u64>::empty(),
        ensures
            registry is Some <==> launched is Some,
            registry matches Some(r) ==> r.wf() && r.jobs() == Map::<u64, JobEntry>::empty(),
    {
        match launched {
            Some(scheduler) => {
                let registry = JobRegistry {
                    scheduler,
                    slots: Vec::new(),
                    entries: Ghost(Map::empty()),
                };
                assert(registry.entries@.dom() =~= Set::<u64>::empty());
                Some(registry)
            },
            None => None,
        }
    }

    /// The number of jobs.
    pub fn len(&self) -> (n: usize)
        requires
            self.wf(),
        ensures
            n == self.jobs().dom().len(),
    {
        self.slots.len()
    }

    /// The position of the slot with the handle.
    fn slot_of(&self, handle: u64) -> (found: Option<usize>)
        requires
            self.wf(),
        ensures
            match found {
                Some(i) => i < self.slots@.len() && self.slots@[i as int].handle == handle,
                None => !self.jobs().contains_key(handle),
            },
    {
        let mut i: usize = 0;
        while i < self.slots.len()
            invariant
                i <= self.slots@.len(),
                forall|k: int| 0 <= k < i ==> (#[trigger] self.slots@[k]).handle != handle,
            decreases self.slots@.len() - i,
        {
            if self.slots[i].handle == handle {
                return Some(i);
            }
            i = i + 1;
        }
        None
    }

    /// Whether the registry has a job under the handle.
    pub fn contains(&self, handle: u64) -> (found: bool)
        requires
            self.wf(),
        ensures
            found == self.jobs().contains_key(handle),
    {
        self.slot_of(handle).is_some()
    }

    /// Makes a job that sends `notice` to `sink` on each occurrence of
    /// `cron`, and returns its handle.
    ///
    /// The expression is checked first, then the room left. Whether a job
    /// can be made of an accepted expression is the clock's to say, and the
    /// scheduler's: if none is made, the result is `NeverFires`. On any
    /// error no job is made.
    pub fn schedule(&mut self, cron: &str, notice: Notice, sink: &Sender<Notice>) -> (scheduled:
        Result<u64, SchedulingError>)
        requires
            old(self).wf(),
        ensures
            final(self).wf(),
            match scheduled {
                Ok(handle) => {
                    &&& cron_accepts(cron@)
                    &&& old(self).jobs().dom().len() < MAX_JOBS
                    &&& !old(self).jobs().contains_key(handle)
                    &&& final(self).jobs() == old(self).jobs().insert(
                        handle,
                        JobEntry { cron: cron@, notice: notice@ },
                    )
                },
                Err(e) => {
                    &&& final(self).jobs() == old(self).jobs()
                    &&& e == SchedulingError::InvalidCron <==> !cron_accepts(cron@)
                    &&& e == SchedulingError::RegistryFull <==> cron_accepts(cron@) && old(
                        self,
                    ).jobs().dom().len() >= MAX_JOBS
                },
            },
    {
        let schedule = match parse_cron(cron) {
            Some(schedule) => schedule,
            None => {
                return Err(SchedulingError::InvalidCron);
            },
        };
        if self.slots.len() as u64 >= MAX_JOBS {
            return Err(SchedulingError::RegistryFull);
        }
        let ghost entry = JobEntry { cron: cron@, notice: notice@ };
        let switch = JobSwitch::new();
        let inserted = scheduler_insert(&mut self.scheduler, schedule, notice, switch.share(), sink);
        self.settle(inserted, switch, Ghost(entry))
    }

    /// The registry between the scheduler's answer and its own record of it:
    /// all is as `wf` says, but that the scheduler's table already holds the
    /// job it answered with, for which there is room in the slots.
    pub closed spec fn awaits(&self, inserted: Option<u64>) -> bool {
        &&& scheduler_jobs(self.scheduler) == match inserted {
            Some(h) => self.entries@.dom().insert(h),
            None => self.entries@.dom(),
        }
        &&& inserted matches Some(h) ==> !self.entries@.contains_key(h) && self.slots@.len()
            < MAX_JOBS
        &&& self.entries@.dom().finite()
        &&& self.entries@.dom().len() == self.slots@.len()
        &&& self.slots@.len() <= MAX_JOBS
        &&& forall|i: int|
            0 <= i < self.slots@.len() ==> self.entries@.contains_key((#[trigger] self.slots@[i]).handle)
        &&& forall|h: u64| #[trigger]
            self.entries@.contains_key(h) ==> exists|i: int|
                0 <= i < self.slots@.len() && (#[trigger] self.slots@[i]).handle == h
        &&& forall|h: u64| #[trigger]
            self.entries@.contains_key(h) ==> cron_accepts(self.entries@[h].cron)
    }

    /// Takes the scheduler's answer to an insertion. A handle is noted with
    /// its switch and with what the job was made of, and returned; no handle
    /// means that no job was made, which is `NeverFires`.
    fn settle(
        &mut self,
        inserted: Option<u64>,
        switch: JobSwitch,
        entry: Ghost<JobEntry>,
    ) -> (scheduled: Result<u64, SchedulingError>)
        requires
            old(self).awaits(inserted),
            cron_accepts(entry@.cron),
        ensures
            final(self).wf(),
            match inserted {
                Some(h) => scheduled == Ok::<u64, SchedulingError>(h) && final(self).jobs() == old(self).jobs().insert(h, entry@),
                None => scheduled == Err::<u64, SchedulingError>(SchedulingError::NeverFires) && final(self).jobs() == old(self).jobs(),
            },
    {
        match inserted {
            Some(handle) => {
                self.slots.push(JobSlot { handle, switch });
                proof {
                    self.entries@ = self.entries@.insert(handle, entry@);
                    assert(self.entries@.dom() =~= old(self).entries@.dom().insert(handle));
                    assert forall|i: int| 0 <= i < self.slots@.len() implies
                        self.entries@.contains_key((#[trigger] self.slots@[i]).handle) by {
                        if i < old(self).slots@.len() {
                            assert(self.slots@[i] == old(self).slots@[i]);
                        }
                    }
                    assert forall|h: u64| #[trigger] self.entries@.contains_key(h) implies
                        exists|i: int| 0 <= i < self.slots@.len() && (#[trigger] self.slots@[i]).handle == h by {
                        if h == handle {
                            assert(self.slots@[old(self).slots@.len() as int].handle == h);
                        } else {
                            let i = choose|i: int| 0 <= i < old(self).slots@.len() && (#[trigger] old(self).slots@[i]).handle == h;
                            assert(self.slots@[i].handle == h);
                        }
                    }
                }
                Ok(handle)
            },
            None => Err(SchedulingError::NeverFires),
        }
    }

    /// Cancels the job under `handle` and says whether there was one.
    ///
    /// Once the call has returned the job sends nothing more.
    pub fn cancel(&mut self, handle: u64) -> (cancelled: bool)
        requires
            old(self).wf(),
        ensures
            final(self).wf(),
            cancelled == old(self).jobs().contains_key(handle),
            final(self).jobs() == old(self).jobs().remove(handle),
    {
        let position = match self.slot_of(handle) {
            Some(position) => position,
            None => {
                assert(self.entries@.remove(handle) =~= self.entries@);
                return false;
            },
        };
        self.slots[position].switch.cancel();
        scheduler_remove(&mut self.scheduler, handle);
        self.slots.remove(position);
        proof {
            self.entries@ = self.entries@.remove(handle);
            let before = old(self).slots@;
            let p = position as int;
            assert(self.entries@.dom() =~= old(self).entries@.dom().remove(handle));
            // The handle stood in one slot only: two would make the slots
            // more than the handles.
            assert forall|i: int| 0 <= i < before.len() && i != p implies (#[trigger] before[i]).handle
                != handle by {
                if before[i].handle == handle {
                    lemma_slots_distinct(before, old(self).entries@.dom(), i, p);
                }
            }
            assert forall|i: int| 0 <= i < self.slots@.len() implies self.entries@.contains_key(
                (#[trigger] self.slots@[i]).handle,
            ) by {
                let k = if i < p { i } else { i + 1 };
                assert(self.slots@[i] == before[k]);
            }
            assert forall|h: u64| #[trigger] self.entries@.contains_key(h) implies exists|i: int|
                0 <= i < self.slots@.len() && (#[trigger] self.slots@[i]).handle == h by {
                let k = choose|k: int| 0 <= k < before.len() && (#[trigger] before[k]).handle == h;
                let i = if k < p { k } else { k - 1 };
                assert(self.slots@[i] == before[k]);
            }
        }
        true
    }
}

/// The handles of the first `n` slots.
spec fn handles_upto(slots: Seq<JobSlot>, n: int) -> Set<u64> {
    Set::new(|h: u64| exists|i: int| 0 <= i < n && (#[trigger] slots[i]).handle == h)
}

/// As many slots as handles, every slot's handle among them and every handle
/// in a slot: then no two slots share a handle.
proof fn lemma_slots_distinct(slots: Seq<JobSlot>, handles: Set<u64>, a: int, b: int)
    requires
        handles.finite(),
        handles.len() == slots.len(),
        forall|i: int| 0 <= i < slots.len() ==> handles.contains((#[trigger] slots[i]).handle),
        forall|h: u64| #[trigger]
            handles.contains(h) ==> exists|i: int|
                0 <= i < slots.len() && (#[trigger] slots[i]).handle == h,
        0 <= a < slots.len(),
        0 <= b < slots.len(),
        a != b,
    ensures
        slots[a].handle != slots[b].handle,
{
    if slots[a].handle == slots[b].handle {
        // Without slot `b` the slots still cover every handle.
        let fewer = slots.remove(b);
        assert forall|h: u64| #[trigger] handles.contains(h) implies handles_upto(
            fewer,
            fewer.len() as int,
        ).contains(h) by {
            let i = choose|i: int| 0 <= i < slots.len() && (#[trigger] slots[i]).handle == h;
            let src = if i == b { a } else { i };
            let k = if src < b { src } else { src - 1 };
            assert(fewer[k] == slots[src]);
            assert(fewer[k].handle == h);
        }
        lemma_handles_upto_len(fewer, fewer.len() as int);
        vstd::set_lib::lemma_len_subset(handles, handles_upto(fewer, fewer.len() as int));
    }
}

/// The first `n` slots have at most `n` handles.
proof fn lemma_handles_upto_len(slots: Seq<JobSlot>, n: int)
    requires
        0 <= n <= slots.len(),
    ensures
        handles_upto(slots, n).finite(),
        handles_upto(slots, n).len() <= n,
    decreases n,
{
    if n == 0 {
        assert(handles_upto(slots, 0) =~= Set::<u64>::empty());
    } else {
        lemma_handles_upto_len(slots, n - 1);
        assert(handles_upto(slots, n) =~= handles_upto(slots, n - 1).insert(slots[n - 1].handle)) by {
            assert forall|h: u64| handles_upto(slots, n).contains(h) implies handles_upto(
                slots,
                n - 1,
            ).insert(slots[n - 1].handle).contains(h) by {
                let i = choose|i: int| 0 <= i < n && (#[trigger] slots[i]).handle == h;
                if i < n - 1 {
                    assert(handles_upto(slots, n - 1).contains(h));
                }
            }
            assert forall|h: u64|
                handles_upto(slots, n - 1).insert(slots[n - 1].handle).contains(
                    h,
                ) implies handles_upto(slots, n).contains(h) by {
                if h == slots[n - 1].handle {
                    assert(slots[n - 1].handle == h);
                } else {
                    let i = choose|i: int| 0 <= i < n - 1 && (#[trigger] slots[i]).handle == h;
                    assert(slots[i].handle == h);
                }
            }
        }
    }
}

} // verus!
