//! What follows from the contracts of the store's operations, stated over
//! the store as plain values.

use crate::consistency::{lemma_all_but_one_schedulable, lemma_counts_agree, lemma_job_count};
use crate::cron_text::cron_accepts;
use crate::error::SchedulingError;
use crate::group::{GroupFieldsView, GroupRecordView, GroupView};
use crate::ident::is_valid_id;
use crate::model::{
    failed, group_added, group_updated, groups_of, records_of, reschedules, schedulable,
    schedulable_count, start_result, store_wf, unique_ids, unique_record_ids, without_group,
    InstanceView, ScheduleFailureView,
};
use vstd::prelude::*;

verus! {

/// Each store of the sequence comes from the one before by adding a group.
pub open spec fn additions(stores: Seq<InstanceView>, groups: Seq<GroupView>) -> bool {
    &&& stores.len() == groups.len() + 1
    &&& forall|k: int|
        0 <= k < groups.len() ==> #[trigger] group_added(stores[k], stores[k + 1], groups[k])
}

/// Adding a group keeps the identifiers distinct and the groups that were
/// there, and gives the new group an identifier of seven alphabet symbols.
pub proof fn lemma_addition_keeps_ids(pre: InstanceView, post: InstanceView, g: GroupView)
    requires
        unique_ids(pre.groups),
        group_added(pre, post, g),
    ensures
        unique_ids(post.groups),
        post.groups.len() == pre.groups.len() + 1,
        is_valid_id(post.groups.last().id),
        forall|i: int| 0 <= i < pre.groups.len() ==> #[trigger] post.groups[i] == pre.groups[i],
{
    let n = pre.groups.len() as int;
    assert forall|i: int, j: int| 0 <= i < j < post.groups.len() implies (#[trigger] post.groups[i]).id
        != (#[trigger] post.groups[j]).id by {
        if j == n {
            assert(pre.groups[i].id != post.groups[n].id);
        } else {
            assert(pre.groups[i].id != pre.groups[j].id);
        }
    }
}

/// However many groups are added to a store, one after the other, the
/// identifiers stay distinct, and every identifier that was assigned on the
/// way has seven symbols of the alphabet.
pub proof fn lemma_added_ids_unique_and_valid(stores: Seq<InstanceView>, groups: Seq<GroupView>)
    requires
        additions(stores, groups),
        unique_ids(stores[0].groups),
    ensures
        forall|k: int|
            0 <= k < stores.len() ==> {
                &&& unique_ids((#[trigger] stores[k]).groups)
                &&& stores[k].groups.len() == stores[0].groups.len() + k
                &&& forall|j: int|
                    stores[0].groups.len() <= j < stores[k].groups.len() ==> is_valid_id(
                        (#[trigger] stores[k].groups[j]).id,
                    )
            },
    decreases groups.len(),
{
    if groups.len() > 0 {
        let n = groups.len() as int;
        let shorter_stores = stores.take(n);
        let shorter_groups = groups.take(n - 1);
        assert forall|k: int| 0 <= k < shorter_groups.len() implies #[trigger] group_added(
            shorter_stores[k],
            shorter_stores[k + 1],
            shorter_groups[k],
        ) by {
            assert(group_added(stores[k], stores[k + 1], groups[k]));
        }
        lemma_added_ids_unique_and_valid(shorter_stores, shorter_groups);
        assert(shorter_stores[n - 1] == stores[n - 1]);
        assert(shorter_stores[0] == stores[0]);
        assert(group_added(stores[n - 1], stores[n - 1 + 1], groups[n - 1]));
        lemma_addition_keeps_ids(stores[n - 1], stores[n], groups[n - 1]);
        assert forall|k: int| 0 <= k < stores.len() implies {
            &&& unique_ids((#[trigger] stores[k]).groups)
            &&& stores[k].groups.len() == stores[0].groups.len() + k
            &&& forall|j: int|
                stores[0].groups.len() <= j < stores[k].groups.len() ==> is_valid_id(
                    (#[trigger] stores[k].groups[j]).id,
                )
        } by {
            if k < n {
                assert(shorter_stores[k] == stores[k]);
            } else {
                assert forall|j: int|
                    stores[0].groups.len() <= j < stores[n].groups.len() implies is_valid_id(
                    (#[trigger] stores[n].groups[j]).id,
                ) by {
                    if j < stores[n - 1].groups.len() {
                        assert(stores[n].groups[j] == stores[n - 1].groups[j]);
                        assert(is_valid_id(stores[n - 1].groups[j].id));
                    }
                }
            }
        }
    }
}

/// Deleting a group takes its job out of the registry: no job is left
/// under its handle, no group names that handle, and every other job stays
/// as it was.
pub proof fn lemma_delete_cancels_job(pre: InstanceView, index: int, handle: u64)
    requires
        store_wf(pre),
        0 <= index < pre.groups.len(),
        pre.jobs is Some,
        pre.groups[index].job_id == Some(handle),
    ensures
        ({
            let post = without_group(pre, index);
            &&& post.jobs == Some(pre.jobs->0.remove(handle))
            &&& !post.jobs->0.contains_key(handle)
            &&& forall|i: int|
                0 <= i < post.groups.len() ==> (#[trigger] post.groups[i]).job_id != Some(handle)
            &&& forall|h: u64|
                h != handle && pre.jobs->0.contains_key(h) ==> post.jobs->0.contains_key(h)
                    && post.jobs->0[h] == pre.jobs->0[h]
        }),
{
    let post = without_group(pre, index);
    assert forall|i: int| 0 <= i < post.groups.len() implies (#[trigger] post.groups[i]).job_id
        != Some(handle) by {
        let k = if i < index { i } else { i + 1 };
        assert(post.groups[i] == pre.groups[k]);
        if k < index {
            assert(pre.groups[k].job_id is Some ==> pre.groups[k].job_id != pre.groups[index].job_id);
        } else {
            assert(pre.groups[index].job_id != pre.groups[k].job_id);
        }
    }
}

/// Deleting a group of a store that does not run touches no registry.
pub proof fn lemma_delete_without_registry(pre: InstanceView, index: int)
    requires
        0 <= index < pre.groups.len(),
        pre.jobs is None,
    ensures
        without_group(pre, index).jobs is None,
        without_group(pre, index).groups == pre.groups.remove(index),
{
}

/// An update that changes the expression of an enabled group on a running
/// store cancels the group's old job and leaves it with a new one, made from
/// the new expression and the new texts.
pub proof fn lemma_update_reschedules(
    pre: InstanceView,
    post: InstanceView,
    index: int,
    id: Seq<char>,
    f: GroupFieldsView,
)
    requires
        store_wf(pre),
        group_updated(pre, post, index, id, f),
        pre.jobs is Some,
        f.enabled,
        f.cron != pre.groups[index].cron,
    ensures
        post.groups[index].job_id is Some,
        post.groups[index].job_id != pre.groups[index].job_id,
        pre.groups[index].job_id matches Some(old_job) ==> !post.jobs->0.contains_key(old_job),
        ({
            let job = post.groups[index].job_id->0;
            &&& !pre.jobs->0.contains_key(job)
            &&& post.jobs->0.contains_key(job)
            &&& post.jobs->0[job].cron == f.cron
            &&& post.jobs->0[job].notice.title == f.title
            &&& post.jobs->0[job].notice.body == f.description
        }),
{
}

/// An update that leaves expression and switch alone leaves the registry
/// alone: the same jobs, and the group under the job it had.
pub proof fn lemma_update_keeps_job(
    pre: InstanceView,
    post: InstanceView,
    index: int,
    id: Seq<char>,
    f: GroupFieldsView,
)
    requires
        group_updated(pre, post, index, id, f),
        !reschedules(pre.groups[index], f),
    ensures
        post.jobs == pre.jobs,
        post.groups[index].job_id == pre.groups[index].job_id,
        post.groups[index].title == f.title,
        post.groups[index].description == f.description,
{
}

/// An update that disables a group of a running store cancels its job and
/// leaves the group without one.
pub proof fn lemma_update_disables(
    pre: InstanceView,
    post: InstanceView,
    index: int,
    id: Seq<char>,
    f: GroupFieldsView,
)
    requires
        store_wf(pre),
        group_updated(pre, post, index, id, f),
        pre.groups[index].enabled,
        !f.enabled,
    ensures
        post.groups[index].job_id is None,
        pre.jobs matches Some(jobs) ==> (pre.groups[index].job_id matches Some(old_job)
            ==> post.jobs == Some(jobs.remove(old_job)) && !post.jobs->0.contains_key(old_job)),
{
}

/// What is kept of a collection on disk gives the collection back, but for
/// the job handles; the records of a loaded collection are the records that
/// were loaded; and the records of groups with distinct identifiers have
/// distinct identifiers, so what a store saves it can load again.
pub proof fn lemma_records_round_trip(groups: Seq<GroupView>, records: Seq<GroupRecordView>)
    ensures
        groups_of(records_of(groups)).len() == groups.len(),
        forall|i: int|
            0 <= i < groups.len() ==> #[trigger] groups_of(records_of(groups))[i]
                == groups[i].with_job(None),
        records_of(groups_of(records)) == records,
        records_of(groups_of(records_of(groups))) == records_of(groups),
        unique_ids(groups) ==> unique_record_ids(records_of(groups)),
{
    assert(records_of(groups_of(records)) =~= records);
    assert(records_of(groups_of(records_of(groups))) =~= records_of(groups));
    if unique_ids(groups) {
        let saved = records_of(groups);
        assert forall|i: int, j: int| 0 <= i < j < saved.len() implies
            (#[trigger] saved[i]).id != (#[trigger] saved[j]).id by {
            assert(groups[i].id != groups[j].id);
        }
    }
}

/// Starting a store gives a job to exactly the groups that are enabled
/// with an accepted expression, reports exactly the enabled groups whose
/// expression is not accepted, and leaves as many jobs in the registry as
/// there are groups of the first kind, if every reported failure is
/// `InvalidCron`: that is, if neither the clock nor the registry's limit
/// stood in the way.
pub proof fn lemma_start_schedules_every_accepted(
    pre: InstanceView,
    post: InstanceView,
    failures: Seq<ScheduleFailureView>,
)
    requires
        store_wf(post),
        start_result(pre, post, failures),
        post.jobs->0.dom().finite(),
        forall|k: int|
            0 <= k < failures.len() ==> (#[trigger] failures[k]).reason
                == SchedulingError::InvalidCron,
    ensures
        post.jobs is Some,
        forall|i: int|
            0 <= i < pre.groups.len() ==> ((#[trigger] post.groups[i]).job_id is Some
                <==> schedulable(pre.groups[i])),
        forall|i: int|
            0 <= i < pre.groups.len() ==> (failed(failures, i) <==> (#[trigger] pre.groups[i]).enabled
                && !cron_accepts(pre.groups[i].cron)),
        post.jobs->0.dom().len() == schedulable_count(pre.groups),
{
    assert forall|i: int| 0 <= i < pre.groups.len() implies (failed(failures, i) <==> (
    #[trigger] pre.groups[i]).enabled && !cron_accepts(pre.groups[i].cron)) by {
        assert(post.groups[i] == pre.groups[i].with_job(post.groups[i].job_id));
        assert(post.groups[i].job_id is Some <==> pre.groups[i].enabled && !failed(failures, i));
        if failed(failures, i) {
            let k = choose|k: int| 0 <= k < failures.len() && (#[trigger] failures[k]).index == i;
            assert(failures[k].reason == SchedulingError::InvalidCron);
        } else if pre.groups[i].enabled {
            assert(cron_accepts(post.groups[i].cron));
        }
    }
    assert forall|i: int| 0 <= i < pre.groups.len() implies ((#[trigger] post.groups[i]).job_id is Some
        <==> schedulable(pre.groups[i])) by {
        assert(post.groups[i].job_id is Some <==> pre.groups[i].enabled && !failed(failures, i));
        assert(failed(failures, i) <==> pre.groups[i].enabled && !cron_accepts(pre.groups[i].cron));
    }
    lemma_job_count(post.groups, post.jobs->0, post.bundle_identifier);
    lemma_counts_agree(post.groups, pre.groups);
}

/// Starting a store whose groups are all enabled and all but one have an
/// accepted expression reports that one group, and only it, and gives every
/// other group a job of its own, so that the registry holds one job less
/// than there are groups, if every reported failure is `InvalidCron`: that
/// is, if neither the clock nor the registry's limit stood in the way.
pub proof fn lemma_start_isolates_invalid(
    pre: InstanceView,
    post: InstanceView,
    failures: Seq<ScheduleFailureView>,
    bad: int,
)
    requires
        store_wf(post),
        start_result(pre, post, failures),
        post.jobs->0.dom().finite(),
        0 <= bad < pre.groups.len(),
        forall|i: int| 0 <= i < pre.groups.len() ==> (#[trigger] pre.groups[i]).enabled,
        forall|i: int|
            0 <= i < pre.groups.len() ==> (cron_accepts((#[trigger] pre.groups[i]).cron) <==> i
                != bad),
        forall|k: int|
            0 <= k < failures.len() ==> (#[trigger] failures[k]).reason
                == SchedulingError::InvalidCron,
    ensures
        failures.len() == 1,
        failures[0].index == bad,
        failures[0].id == pre.groups[bad].id,
        post.jobs is Some,
        post.jobs->0.dom().len() == pre.groups.len() - 1,
        post.groups[bad].job_id is None,
        forall|i: int|
            0 <= i < pre.groups.len() && i != bad ==> (#[trigger] post.groups[i]).job_id is Some
                && post.jobs->0.contains_key(post.groups[i].job_id->0),
        forall|i: int, j: int|
            0 <= i < j < pre.groups.len() && i != bad && j != bad ==> (
            #[trigger] post.groups[i]).job_id != (#[trigger] post.groups[j]).job_id,
{
    lemma_start_schedules_every_accepted(pre, post, failures);
    assert forall|i: int| 0 <= i < pre.groups.len() implies (schedulable(#[trigger] pre.groups[i])
        <==> i != bad) by {}
    lemma_all_but_one_schedulable(pre.groups, bad);
    assert(failed(failures, bad));
    assert forall|k: int| 0 <= k < failures.len() implies (#[trigger] failures[k]).index == bad by {
        let f = failures[k];
        assert(failed(failures, f.index));
    }
    if failures.len() > 1 {
        assert(failures[0].index < failures[1].index);
    }
    assert(post.groups[bad].job_id is Some <==> schedulable(pre.groups[bad]));
    assert forall|i: int| 0 <= i < pre.groups.len() && i != bad implies (
    #[trigger] post.groups[i]).job_id is Some && post.jobs->0.contains_key(
        post.groups[i].job_id->0,
    ) by {
        assert(post.groups[i].job_id is Some <==> schedulable(pre.groups[i]));
    }
    assert forall|i: int, j: int|
        0 <= i < j < pre.groups.len() && i != bad && j != bad implies (
    #[trigger] post.groups[i]).job_id != (#[trigger] post.groups[j]).job_id by {
        assert(post.groups[i].job_id is Some <==> schedulable(pre.groups[i]));
    }
}

/// A started store never gives a disabled group a job and reports no
/// failure for it, whatever the clock says; and every job of the registry
/// is the job of another group.
pub proof fn lemma_start_skips_disabled(
    pre: InstanceView,
    post: InstanceView,
    failures: Seq<ScheduleFailureView>,
    index: int,
)
    requires
        store_wf(post),
        start_result(pre, post, failures),
        0 <= index < pre.groups.len(),
        !pre.groups[index].enabled,
    ensures
        post.groups[index].job_id is None,
        !failed(failures, index),
        forall|h: u64| #[trigger]
            post.jobs->0.contains_key(h) ==> exists|i: int|
                0 <= i < post.groups.len() && i != index && (#[trigger] post.groups[i]).job_id
                    == Some(h),
{
    assert(post.groups[index].job_id is Some <==> pre.groups[index].enabled && !failed(
        failures,
        index,
    ));
    if failed(failures, index) {
        let k = choose|k: int| 0 <= k < failures.len() && (#[trigger] failures[k]).index == index;
        assert(pre.groups[failures[k].index].enabled);
    }
    assert forall|h: u64| #[trigger] post.jobs->0.contains_key(h) implies exists|i: int|
        0 <= i < post.groups.len() && i != index && (#[trigger] post.groups[i]).job_id == Some(
            h,
        ) by {
        let i = choose|i: int|
            0 <= i < post.groups.len() && (#[trigger] post.groups[i]).job_id == Some(h);
        assert(i != index);
    }
}

} // verus!
