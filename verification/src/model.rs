//! The store as plain values: what its invariant says and what each
//! operation makes of it.

use crate::cron_text::cron_accepts;
use crate::error::{SchedulingError, StoreError};
use crate::group::{Group, GroupFieldsView, GroupRecord, GroupRecordView, GroupView};
use crate::ident::is_valid_id;
use crate::registry::{JobEntry, MAX_JOBS};
use crate::store::MAX_ID_ATTEMPTS;
use vstd::prelude::*;

verus! {

/// The store as plain values. `jobs` is `None` until the registry runs.
pub struct InstanceView {
    pub groups: Seq<GroupView>,
    pub jobs: Option<Map<u64, JobEntry>>,
    pub bundle_identifier: Seq<char>,
}

/// A failure as plain values.
pub struct ScheduleFailureView {
    pub index: int,
    pub id: Seq<char>,
    pub reason: SchedulingError,
}

/// The groups of a vector as plain values.
pub open spec fn group_views(groups: Seq<Group>) -> Seq<GroupView> {
    Seq::new(groups.len(), |i: int| groups[i]@)
}

/// The records of a vector as plain values.
pub open spec fn record_views(records: Seq<GroupRecord>) -> Seq<GroupRecordView> {
    Seq::new(records.len(), |i: int| records[i]@)
}

/// What is kept of each group on disk, in order.
pub open spec fn records_of(groups: Seq<GroupView>) -> Seq<GroupRecordView> {
    Seq::new(groups.len(), |i: int| groups[i].record())
}

/// The groups of a sequence of records, in order, without jobs.
pub open spec fn groups_of(records: Seq<GroupRecordView>) -> Seq<GroupView> {
    Seq::new(records.len(), |i: int| records[i].group())
}

/// Whether some group has the identifier.
pub open spec fn id_used(groups: Seq<GroupView>, id: Seq<char>) -> bool {
    exists|i: int| 0 <= i < groups.len() && (#[trigger] groups[i]).id == id
}

/// The candidates as texts.
pub open spec fn candidate_views(candidates: Seq<String>) -> Seq<Seq<char>> {
    Seq::new(candidates.len(), |i: int| candidates[i]@)
}

/// Candidate `k` is the one to take: the first, among the first
/// `MAX_ID_ATTEMPTS`, that no group has as its identifier.
pub open spec fn first_unused_at(groups: Seq<GroupView>, candidates: Seq<Seq<char>>, k: int) -> bool {
    &&& 0 <= k < candidates.len()
    &&& k < MAX_ID_ATTEMPTS
    &&& !id_used(groups, candidates[k])
    &&& forall|j: int| 0 <= j < k ==> id_used(groups, #[trigger] candidates[j])
}

/// None of the first `MAX_ID_ATTEMPTS` candidates is free to take.
pub open spec fn none_unused(groups: Seq<GroupView>, candidates: Seq<Seq<char>>) -> bool {
    forall|j: int|
        0 <= j < candidates.len() && j < MAX_ID_ATTEMPTS ==> id_used(
            groups,
            #[trigger] candidates[j],
        )
}

/// `drawn` is what a search for an identifier drew, one candidate after the
/// other, and `found` is how it ended: every candidate has seven symbols of
/// the alphabet, drawing stopped at the first that no group has, which is
/// the one found, or after `MAX_ID_ATTEMPTS` candidates that groups have.
pub open spec fn drawn_until_unused(
    groups: Seq<GroupView>,
    drawn: Seq<Seq<char>>,
    found: Option<Seq<char>>,
) -> bool {
    &&& 1 <= drawn.len() <= MAX_ID_ATTEMPTS
    &&& forall|i: int| 0 <= i < drawn.len() ==> is_valid_id(#[trigger] drawn[i])
    &&& match found {
        Some(id) => id == drawn.last() && first_unused_at(groups, drawn, drawn.len() - 1),
        None => drawn.len() == MAX_ID_ATTEMPTS && none_unused(groups, drawn),
    }
}

/// No two groups share an identifier.
pub open spec fn unique_ids(groups: Seq<GroupView>) -> bool {
    forall|i: int, j: int|
        0 <= i < j < groups.len() ==> (#[trigger] groups[i]).id != (#[trigger] groups[j]).id
}

/// No two records share an identifier.
pub open spec fn unique_record_ids(records: Seq<GroupRecordView>) -> bool {
    forall|i: int, j: int|
        0 <= i < j < records.len() ==> (#[trigger] records[i]).id != (#[trigger] records[j]).id
}

/// No group has a job.
pub open spec fn no_jobs(groups: Seq<GroupView>) -> bool {
    forall|i: int| 0 <= i < groups.len() ==> (#[trigger] groups[i]).job_id is None
}

/// Groups and jobs correspond one to one: a group's handle names a job made
/// from the group's expression for the tag, only enabled groups with an
/// accepted expression have one, every job belongs to a group, and no two
/// groups share a job.
pub open spec fn jobs_match(
    groups: Seq<GroupView>,
    jobs: Map<u64, JobEntry>,
    tag: Seq<char>,
) -> bool {
    &&& forall|i: int|
        0 <= i < groups.len() ==> ((#[trigger] groups[i]).job_id matches Some(h) ==> {
            &&& jobs.contains_key(h)
            &&& jobs[h].cron == groups[i].cron
            &&& jobs[h].notice.tag == tag
            &&& groups[i].enabled
            &&& cron_accepts(groups[i].cron)
        })
    &&& forall|h: u64| #[trigger]
        jobs.contains_key(h) ==> exists|i: int|
            0 <= i < groups.len() && (#[trigger] groups[i]).job_id == Some(h)
    &&& forall|i: int, j: int|
        0 <= i < j < groups.len() && (#[trigger] groups[i]).job_id is Some ==> groups[i].job_id
            != (#[trigger] groups[j]).job_id
}

/// How many of the groups have a job.
pub open spec fn job_count(groups: Seq<GroupView>) -> nat
    decreases groups.len(),
{
    if groups.len() == 0 {
        0
    } else if groups.last().job_id is Some {
        job_count(groups.drop_last()) + 1
    } else {
        job_count(groups.drop_last())
    }
}

/// Whether a group is to have a job on a running store: it is enabled and
/// its expression is accepted.
pub open spec fn schedulable(g: GroupView) -> bool {
    g.enabled && cron_accepts(g.cron)
}

/// How many of the groups are to have a job on a running store.
pub open spec fn schedulable_count(groups: Seq<GroupView>) -> nat
    decreases groups.len(),
{
    if groups.len() == 0 {
        0
    } else if schedulable(groups.last()) {
        schedulable_count(groups.drop_last()) + 1
    } else {
        schedulable_count(groups.drop_last())
    }
}

/// What holds of a store between operations.
pub open spec fn store_wf(v: InstanceView) -> bool {
    &&& unique_ids(v.groups)
    &&& match v.jobs {
        Some(jobs) => jobs_match(v.groups, jobs, v.bundle_identifier),
        None => no_jobs(v.groups),
    }
}

/// The store with `g` appended under the job `job`.
pub open spec fn with_group(v: InstanceView, g: GroupView, job: Option<u64>) -> InstanceView {
    InstanceView {
        groups: v.groups.push(g.with_job(job)),
        jobs: match (v.jobs, job) {
            (Some(jobs), Some(h)) => Some(jobs.insert(h, g.job_entry(v.bundle_identifier))),
            _ => v.jobs,
        },
        bundle_identifier: v.bundle_identifier,
    }
}

/// The store without the group at `index` and without that group's job.
pub open spec fn without_group(v: InstanceView, index: int) -> InstanceView {
    InstanceView {
        groups: v.groups.remove(index),
        jobs: match (v.jobs, v.groups[index].job_id) {
            (Some(jobs), Some(h)) => Some(jobs.remove(h)),
            _ => v.jobs,
        },
        bundle_identifier: v.bundle_identifier,
    }
}

/// Whether the store runs a registry that has no room left.
pub open spec fn registry_full(v: InstanceView) -> bool {
    v.jobs matches Some(jobs) && jobs.dom().len() >= MAX_JOBS
}

/// The error that inserting `g` meets whatever the clock says, if any: the
/// identifier is taken, or the group is enabled and its expression is not
/// accepted, or it is enabled and the running registry is full.
pub open spec fn insert_refusal(v: InstanceView, g: GroupView) -> Option<StoreError> {
    if id_used(v.groups, g.id) {
        Some(StoreError::DuplicateId)
    } else if g.enabled && !cron_accepts(g.cron) {
        Some(StoreError::Scheduling(SchedulingError::InvalidCron))
    } else if g.enabled && registry_full(v) {
        Some(StoreError::Scheduling(SchedulingError::RegistryFull))
    } else {
        None
    }
}

/// Whether replacing a group's fields means making its job anew: the
/// expression or the switch changed.
pub open spec fn reschedules(g: GroupView, f: GroupFieldsView) -> bool {
    f.cron != g.cron || f.enabled != g.enabled
}

/// The error that updating `g` with `f` meets whatever the clock says, if
/// any. Fields that leave the job alone are never refused.
pub open spec fn update_refusal(v: InstanceView, g: GroupView, f: GroupFieldsView) -> Option<
    StoreError,
> {
    if !reschedules(g, f) {
        None
    } else if f.enabled && !cron_accepts(f.cron) {
        Some(StoreError::Scheduling(SchedulingError::InvalidCron))
    } else if f.enabled && registry_full(v) {
        Some(StoreError::Scheduling(SchedulingError::RegistryFull))
    } else {
        None
    }
}

/// The store after the group at `index` took the fields `f` and ended up
/// under the job `job`. Where the job is made anew, the group's old job
/// leaves the registry and `job`, if any, enters it.
pub open spec fn updated_store(
    v: InstanceView,
    index: int,
    f: GroupFieldsView,
    job: Option<u64>,
) -> InstanceView {
    let g = v.groups[index];
    let g2 = g.with_fields(f).with_job(job);
    InstanceView {
        groups: v.groups.update(index, g2),
        jobs: if !reschedules(g, f) {
            v.jobs
        } else {
            match v.jobs {
                Some(jobs) => {
                    let rest = match g.job_id {
                        Some(h0) => jobs.remove(h0),
                        None => jobs,
                    };
                    match job {
                        Some(h) => Some(rest.insert(h, g2.job_entry(v.bundle_identifier))),
                        None => Some(rest),
                    }
                },
                None => None,
            }
        },
        bundle_identifier: v.bundle_identifier,
    }
}

/// `post` is `pre` with the group `g` appended under an identifier of seven
/// alphabet symbols that no group of `pre` has. The group has a job, new to
/// the registry, exactly if it is enabled and the registry runs.
pub open spec fn group_added(pre: InstanceView, post: InstanceView, g: GroupView) -> bool {
    let stored = post.groups.last();
    &&& is_valid_id(stored.id)
    &&& !id_used(pre.groups, stored.id)
    &&& !(g.enabled && !cron_accepts(g.cron))
    &&& post == with_group(pre, GroupView { id: stored.id, ..g }, stored.job_id)
    &&& stored.job_id is Some <==> g.enabled && pre.jobs is Some
    &&& stored.job_id matches Some(h) ==> !pre.jobs->0.contains_key(h)
}

/// When adding `g` to `pre` may fail with `e`. An enabled group with an
/// expression that is not accepted always fails, with `InvalidCron`. The
/// other errors are left to chance and to the clock, and each needs what is
/// stated of it here.
pub open spec fn add_refused(pre: InstanceView, g: GroupView, e: StoreError) -> bool {
    &&& e == StoreError::Scheduling(SchedulingError::InvalidCron) <==> g.enabled && !cron_accepts(
        g.cron,
    )
    &&& e == StoreError::Scheduling(SchedulingError::RegistryFull) ==> g.enabled && registry_full(
        pre,
    )
    &&& e == StoreError::Scheduling(SchedulingError::NeverFires) ==> g.enabled && pre.jobs is Some
    &&& e == StoreError::IdGenerationExhausted ==> pre.groups.len() > 0
    &&& e is Scheduling || e == StoreError::IdGenerationExhausted
}

/// `post` is `pre` after the group at `index`, the one with the identifier
/// `id`, took the fields `f`. Where the job is made anew, the group has a
/// job, new to the registry, exactly if it is now enabled and the registry
/// runs; otherwise it keeps the job it had.
pub open spec fn group_updated(
    pre: InstanceView,
    post: InstanceView,
    index: int,
    id: Seq<char>,
    f: GroupFieldsView,
) -> bool {
    let before = pre.groups[index];
    let job = post.groups[index].job_id;
    &&& 0 <= index < pre.groups.len()
    &&& before.id == id
    &&& update_refusal(pre, before, f) is None
    &&& post == updated_store(pre, index, f, job)
    &&& if reschedules(before, f) {
        &&& job is Some <==> f.enabled && pre.jobs is Some
        &&& job matches Some(h) ==> !pre.jobs->0.contains_key(h)
    } else {
        job == before.job_id
    }
}

/// When updating the group with the identifier `id` fails with `e`:
/// `NotFound` exactly if no group has the identifier; otherwise the error
/// that `update_refusal` names, or, where it names none, the clock's
/// `NeverFires` for a job that was to be made.
pub open spec fn update_refused(
    pre: InstanceView,
    id: Seq<char>,
    f: GroupFieldsView,
    e: StoreError,
) -> bool {
    &&& e == StoreError::NotFound <==> !id_used(pre.groups, id)
    &&& forall|i: int|
        0 <= i < pre.groups.len() && (#[trigger] pre.groups[i]).id == id ==> match update_refusal(
            pre,
            pre.groups[i],
            f,
        ) {
            Some(refusal) => e == refusal,
            None => {
                &&& e == StoreError::Scheduling(SchedulingError::NeverFires)
                &&& reschedules(pre.groups[i], f)
                &&& f.enabled
                &&& pre.jobs is Some
            },
        }
}

/// Whether some failure is about the group at `index`.
pub open spec fn failed(failures: Seq<ScheduleFailureView>, index: int) -> bool {
    exists|k: int| 0 <= k < failures.len() && (#[trigger] failures[k]).index == index
}

/// How a store `post` and the reported failures relate to the store `pre`
/// that was started: the groups are the same but for their jobs, every
/// enabled group has a job made from its own fields or is reported, in the
/// order of the groups, and a report says `InvalidCron` exactly when the
/// group's expression is not accepted.
pub open spec fn start_result(
    pre: InstanceView,
    post: InstanceView,
    failures: Seq<ScheduleFailureView>,
) -> bool {
    &&& post.bundle_identifier == pre.bundle_identifier
    &&& post.jobs is Some
    &&& post.groups.len() == pre.groups.len()
    &&& forall|i: int|
        0 <= i < pre.groups.len() ==> #[trigger] post.groups[i] == pre.groups[i].with_job(
            post.groups[i].job_id,
        )
    &&& forall|i: int|
        0 <= i < pre.groups.len() ==> ((#[trigger] post.groups[i]).job_id matches Some(h)
            ==> post.jobs->0.contains_key(h) && post.jobs->0[h] == pre.groups[i].job_entry(
            pre.bundle_identifier,
        ))
    &&& forall|i: int|
        0 <= i < pre.groups.len() ==> ((#[trigger] post.groups[i]).job_id is Some
            <==> pre.groups[i].enabled && !failed(failures, i))
    &&& forall|k: int|
        0 <= k < failures.len() ==> {
            let f = #[trigger] failures[k];
            &&& 0 <= f.index < pre.groups.len()
            &&& f.id == pre.groups[f.index].id
            &&& pre.groups[f.index].enabled
            &&& f.reason == SchedulingError::InvalidCron <==> !cron_accepts(pre.groups[f.index].cron)
        }
    &&& forall|k: int, l: int|
        0 <= k < l < failures.len() ==> (#[trigger] failures[k]).index < (#[trigger] failures[l]).index
}

} // verus!
