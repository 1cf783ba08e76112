//! Why the operations keep the store's invariant.

use crate::cron_text::cron_accepts;
use crate::group::GroupView;
use crate::model::{
    id_used, job_count, jobs_match, schedulable, schedulable_count, store_wf, with_group,
    without_group, InstanceView,
};
use crate::registry::JobEntry;
use vstd::prelude::*;

verus! {

/// Appending a group with an unused identifier keeps the invariant, if its
/// job is new to the registry and the group may have one.
pub proof fn lemma_with_group_wf(v: InstanceView, g: GroupView, job: Option<u64>)
    requires
        store_wf(v),
        !id_used(v.groups, g.id),
        match v.jobs {
            Some(jobs) => job matches Some(h) ==> !jobs.contains_key(h) && g.enabled
                && cron_accepts(g.cron),
            None => job is None,
        },
    ensures
        store_wf(with_group(v, g, job)),
{
    let w = with_group(v, g, job);
    let n = v.groups.len() as int;
    assert forall|i: int, j: int| 0 <= i < j < w.groups.len() implies (#[trigger] w.groups[i]).id
        != (#[trigger] w.groups[j]).id by {
        if j == n {
            assert(v.groups[i].id != g.id);
        } else {
            assert(v.groups[i].id != v.groups[j].id);
        }
    }
    match v.jobs {
        Some(jobs) => {
            let new_jobs = w.jobs->0;
            assert forall|i: int| 0 <= i < w.groups.len() implies ((#[trigger] w.groups[i]).job_id matches Some(
                h,
            ) ==> {
                &&& new_jobs.contains_key(h)
                &&& new_jobs[h].cron == w.groups[i].cron
                &&& new_jobs[h].notice.tag == w.bundle_identifier
                &&& w.groups[i].enabled
                &&& cron_accepts(w.groups[i].cron)
            }) by {
                if i < n {
                    assert(w.groups[i] == v.groups[i]);
                }
            }
            assert forall|h: u64| #[trigger] new_jobs.contains_key(h) implies exists|i: int|
                0 <= i < w.groups.len() && (#[trigger] w.groups[i]).job_id == Some(h) by {
                if jobs.contains_key(h) {
                    let i = choose|i: int|
                        0 <= i < v.groups.len() && (#[trigger] v.groups[i]).job_id == Some(h);
                    assert(w.groups[i] == v.groups[i]);
                } else {
                    assert(w.groups[n].job_id == Some(h));
                }
            }
            assert forall|i: int, j: int|
                0 <= i < j < w.groups.len() && (#[trigger] w.groups[i]).job_id is Some implies w.groups[i].job_id
                != (#[trigger] w.groups[j]).job_id by {
                assert(w.groups[i] == v.groups[i]);
                if j < n {
                    assert(w.groups[j] == v.groups[j]);
                }
            }
        },
        None => {
            assert forall|i: int| 0 <= i < w.groups.len() implies (#[trigger] w.groups[i]).job_id is None by {
                if i < n {
                    assert(w.groups[i] == v.groups[i]);
                }
            }
        },
    }
}

/// Removing a group together with its job keeps the invariant.
pub proof fn lemma_without_group_wf(v: InstanceView, index: int)
    requires
        store_wf(v),
        0 <= index < v.groups.len(),
    ensures
        store_wf(without_group(v, index)),
{
    let w = without_group(v, index);
    let back = |k: int| if k < index { k } else { k + 1 };
    assert forall|k: int| 0 <= k < w.groups.len() implies #[trigger] w.groups[k] == v.groups[back(k)] by {}
    assert forall|i: int, j: int| 0 <= i < j < w.groups.len() implies (#[trigger] w.groups[i]).id
        != (#[trigger] w.groups[j]).id by {
        assert(w.groups[i] == v.groups[back(i)]);
        assert(w.groups[j] == v.groups[back(j)]);
        assert(v.groups[back(i)].id != v.groups[back(j)].id);
    }
    match v.jobs {
        Some(jobs) => {
            let new_jobs = w.jobs->0;
            let gone = v.groups[index].job_id;
            assert forall|i: int| 0 <= i < w.groups.len() implies ((#[trigger] w.groups[i]).job_id matches Some(
                h,
            ) ==> {
                &&& new_jobs.contains_key(h)
                &&& new_jobs[h].cron == w.groups[i].cron
                &&& new_jobs[h].notice.tag == w.bundle_identifier
                &&& w.groups[i].enabled
                &&& cron_accepts(w.groups[i].cron)
            }) by {
                assert(w.groups[i] == v.groups[back(i)]);
                if back(i) < index {
                    assert(v.groups[back(i)].job_id is Some ==> v.groups[back(i)].job_id
                        != v.groups[index].job_id);
                } else {
                    assert(v.groups[index].job_id is Some ==> v.groups[index].job_id
                        != v.groups[back(i)].job_id);
                }
            }
            assert forall|h: u64| #[trigger] new_jobs.contains_key(h) implies exists|i: int|
                0 <= i < w.groups.len() && (#[trigger] w.groups[i]).job_id == Some(h) by {
                assert(jobs.contains_key(h));
                let i = choose|i: int|
                    0 <= i < v.groups.len() && (#[trigger] v.groups[i]).job_id == Some(h);
                assert(i != index);
                let k = if i < index { i } else { i - 1 };
                assert(w.groups[k] == v.groups[back(k)]);
            }
            assert forall|i: int, j: int|
                0 <= i < j < w.groups.len() && (#[trigger] w.groups[i]).job_id is Some implies w.groups[i].job_id
                != (#[trigger] w.groups[j]).job_id by {
                assert(w.groups[i] == v.groups[back(i)]);
                assert(w.groups[j] == v.groups[back(j)]);
                assert(v.groups[back(i)].job_id is Some ==> v.groups[back(i)].job_id
                    != v.groups[back(j)].job_id);
            }
        },
        None => {
            assert forall|i: int| 0 <= i < w.groups.len() implies (#[trigger] w.groups[i]).job_id is None by {
                assert(w.groups[i] == v.groups[back(i)]);
            }
        },
    }
}

/// Giving the jobless group at `index` the new job `h` keeps groups and jobs
/// in correspondence.
pub proof fn lemma_job_assigned(
    groups: Seq<GroupView>,
    jobs: Map<u64, JobEntry>,
    tag: Seq<char>,
    index: int,
    h: u64,
    entry: JobEntry,
)
    requires
        jobs_match(groups, jobs, tag),
        0 <= index < groups.len(),
        groups[index].job_id is None,
        groups[index].enabled,
        cron_accepts(groups[index].cron),
        !jobs.contains_key(h),
        entry.cron == groups[index].cron,
        entry.notice.tag == tag,
    ensures
        jobs_match(groups.update(index, groups[index].with_job(Some(h))), jobs.insert(h, entry), tag),
{
    let after = groups.update(index, groups[index].with_job(Some(h)));
    let new_jobs = jobs.insert(h, entry);
    assert forall|i: int| 0 <= i < after.len() implies ((#[trigger] after[i]).job_id matches Some(x) ==> {
        &&& new_jobs.contains_key(x)
        &&& new_jobs[x].cron == after[i].cron
        &&& new_jobs[x].notice.tag == tag
        &&& after[i].enabled
        &&& cron_accepts(after[i].cron)
    }) by {
        if i != index {
            assert(after[i] == groups[i]);
        }
    }
    assert forall|x: u64| #[trigger] new_jobs.contains_key(x) implies exists|i: int|
        0 <= i < after.len() && (#[trigger] after[i]).job_id == Some(x) by {
        if x == h {
            assert(after[index].job_id == Some(x));
        } else {
            let i = choose|i: int| 0 <= i < groups.len() && (#[trigger] groups[i]).job_id == Some(x);
            assert(after[i] == groups[i]);
        }
    }
    assert forall|i: int, j: int|
        0 <= i < j < after.len() && (#[trigger] after[i]).job_id is Some implies after[i].job_id
        != (#[trigger] after[j]).job_id by {
        if i != index {
            assert(after[i] == groups[i]);
        }
        if j != index {
            assert(after[j] == groups[j]);
            if after[j].job_id is Some && i < j {
                assert(groups[j].job_id is Some);
            }
        }
    }
}

/// Taking the job of the group at `index` away, from the group and from the
/// registry, keeps groups and jobs in correspondence.
pub proof fn lemma_job_released(
    groups: Seq<GroupView>,
    jobs: Map<u64, JobEntry>,
    tag: Seq<char>,
    index: int,
)
    requires
        jobs_match(groups, jobs, tag),
        0 <= index < groups.len(),
        groups[index].job_id is Some,
    ensures
        jobs_match(
            groups.update(index, groups[index].with_job(None)),
            jobs.remove(groups[index].job_id->0),
            tag,
        ),
{
    let h = groups[index].job_id->0;
    let after = groups.update(index, groups[index].with_job(None));
    let new_jobs = jobs.remove(h);
    assert forall|i: int| 0 <= i < after.len() implies ((#[trigger] after[i]).job_id matches Some(x) ==> {
        &&& new_jobs.contains_key(x)
        &&& new_jobs[x].cron == after[i].cron
        &&& new_jobs[x].notice.tag == tag
        &&& after[i].enabled
        &&& cron_accepts(after[i].cron)
    }) by {
        if i != index {
            assert(after[i] == groups[i]);
            if i < index {
                assert(groups[i].job_id is Some ==> groups[i].job_id != groups[index].job_id);
            } else {
                assert(groups[index].job_id != groups[i].job_id);
            }
        }
    }
    assert forall|x: u64| #[trigger] new_jobs.contains_key(x) implies exists|i: int|
        0 <= i < after.len() && (#[trigger] after[i]).job_id == Some(x) by {
        let i = choose|i: int| 0 <= i < groups.len() && (#[trigger] groups[i]).job_id == Some(x);
        assert(after[i] == groups[i]);
    }
    assert forall|i: int, j: int|
        0 <= i < j < after.len() && (#[trigger] after[i]).job_id is Some implies after[i].job_id
        != (#[trigger] after[j]).job_id by {
        assert(after[i] == groups[i]);
        if j != index {
            assert(after[j] == groups[j]);
        }
    }
}

/// Replacing the group at `index` by one with the same job keeps groups and
/// jobs in correspondence, if a group with a job keeps its expression and
/// stays enabled.
pub proof fn lemma_group_replaced(
    groups: Seq<GroupView>,
    jobs: Map<u64, JobEntry>,
    tag: Seq<char>,
    index: int,
    g2: GroupView,
)
    requires
        jobs_match(groups, jobs, tag),
        0 <= index < groups.len(),
        g2.job_id == groups[index].job_id,
        g2.job_id is Some ==> g2.cron == groups[index].cron && g2.enabled,
    ensures
        jobs_match(groups.update(index, g2), jobs, tag),
{
    let after = groups.update(index, g2);
    assert forall|i: int| 0 <= i < after.len() implies ((#[trigger] after[i]).job_id matches Some(x) ==> {
        &&& jobs.contains_key(x)
        &&& jobs[x].cron == after[i].cron
        &&& jobs[x].notice.tag == tag
        &&& after[i].enabled
        &&& cron_accepts(after[i].cron)
    }) by {
        if i != index {
            assert(after[i] == groups[i]);
        } else {
            assert(groups[index].job_id == g2.job_id);
        }
    }
    assert forall|x: u64| #[trigger] jobs.contains_key(x) implies exists|i: int|
        0 <= i < after.len() && (#[trigger] after[i]).job_id == Some(x) by {
        let i = choose|i: int| 0 <= i < groups.len() && (#[trigger] groups[i]).job_id == Some(x);
        assert(after[i].job_id == Some(x));
    }
    assert forall|i: int, j: int|
        0 <= i < j < after.len() && (#[trigger] after[i]).job_id is Some implies after[i].job_id
        != (#[trigger] after[j]).job_id by {
        assert(after[i].job_id == groups[i].job_id);
        assert(after[j].job_id == groups[j].job_id);
    }
}

/// Where groups and jobs correspond, there are as many jobs as groups with a
/// job.
pub proof fn lemma_job_count(groups: Seq<GroupView>, jobs: Map<u64, JobEntry>, tag: Seq<char>)
    requires
        jobs_match(groups, jobs, tag),
        jobs.dom().finite(),
    ensures
        jobs.dom().len() == job_count(groups),
    decreases groups.len(),
{
    if groups.len() == 0 {
        assert(jobs.dom() =~= Set::<u64>::empty()) by {
            assert forall|h: u64| !jobs.contains_key(h) by {
                if jobs.contains_key(h) {
                    let i = choose|i: int|
                        0 <= i < groups.len() && (#[trigger] groups[i]).job_id == Some(h);
                }
            }
        }
    } else {
        let n = groups.len() as int;
        let rest = groups.drop_last();
        let last = groups[n - 1];
        let fewer = match last.job_id {
            Some(h) => jobs.remove(h),
            None => jobs,
        };
        assert forall|i: int| 0 <= i < rest.len() implies ((#[trigger] rest[i]).job_id matches Some(x)
            ==> {
            &&& fewer.contains_key(x)
            &&& fewer[x].cron == rest[i].cron
            &&& fewer[x].notice.tag == tag
            &&& rest[i].enabled
            &&& cron_accepts(rest[i].cron)
        }) by {
            assert(rest[i] == groups[i]);
            assert(groups[i].job_id is Some ==> groups[i].job_id != groups[n - 1].job_id);
        }
        assert forall|x: u64| #[trigger] fewer.contains_key(x) implies exists|i: int|
            0 <= i < rest.len() && (#[trigger] rest[i]).job_id == Some(x) by {
            let i = choose|i: int| 0 <= i < groups.len() && (#[trigger] groups[i]).job_id == Some(x);
            assert(i != n - 1);
            assert(rest[i] == groups[i]);
        }
        assert forall|i: int, j: int|
            0 <= i < j < rest.len() && (#[trigger] rest[i]).job_id is Some implies rest[i].job_id
            != (#[trigger] rest[j]).job_id by {
            assert(rest[i] == groups[i]);
            assert(rest[j] == groups[j]);
        }
        lemma_job_count(rest, fewer, tag);
        if let Some(h) = last.job_id {
            assert(groups[n - 1].job_id == Some(h));
            assert(jobs.contains_key(h));
        }
    }
}

/// Where the groups of one sequence have a job exactly if the groups of
/// another, in the same places, are to have one, the counts agree.
pub proof fn lemma_counts_agree(with_jobs: Seq<GroupView>, wanted: Seq<GroupView>)
    requires
        with_jobs.len() == wanted.len(),
        forall|i: int|
            0 <= i < wanted.len() ==> ((#[trigger] with_jobs[i]).job_id is Some <==> schedulable(
                wanted[i],
            )),
    ensures
        job_count(with_jobs) == schedulable_count(wanted),
    decreases wanted.len(),
{
    if wanted.len() > 0 {
        let n = wanted.len() as int;
        assert forall|i: int| 0 <= i < n - 1 implies ((#[trigger] with_jobs.drop_last()[i]).job_id is Some
            <==> schedulable(wanted.drop_last()[i])) by {
            assert(with_jobs.drop_last()[i] == with_jobs[i]);
            assert(wanted.drop_last()[i] == wanted[i]);
        }
        lemma_counts_agree(with_jobs.drop_last(), wanted.drop_last());
        assert(with_jobs[n - 1].job_id is Some <==> schedulable(wanted[n - 1]));
    }
}

/// Of groups that are all to have a job but the one at `bad`, as many are to
/// have one as there are groups, less one.
pub proof fn lemma_all_but_one_schedulable(groups: Seq<GroupView>, bad: int)
    requires
        0 <= bad < groups.len(),
        forall|i: int| 0 <= i < groups.len() ==> (schedulable(#[trigger] groups[i]) <==> i != bad),
    ensures
        schedulable_count(groups) == groups.len() - 1,
    decreases groups.len(),
{
    let n = groups.len() as int;
    let rest = groups.drop_last();
    assert forall|i: int| 0 <= i < rest.len() implies #[trigger] rest[i] == groups[i] by {}
    if bad == n - 1 {
        lemma_all_schedulable(rest);
    } else {
        assert forall|i: int| 0 <= i < rest.len() implies (schedulable(#[trigger] rest[i]) <==> i
            != bad) by {
            assert(rest[i] == groups[i]);
        }
        lemma_all_but_one_schedulable(rest, bad);
        assert(schedulable(groups[n - 1]));
    }
}

/// Of groups that are all to have a job, as many are to have one as there
/// are groups.
pub proof fn lemma_all_schedulable(groups: Seq<GroupView>)
    requires
        forall|i: int| 0 <= i < groups.len() ==> schedulable(#[trigger] groups[i]),
    ensures
        schedulable_count(groups) == groups.len(),
    decreases groups.len(),
{
    if groups.len() > 0 {
        let rest = groups.drop_last();
        assert forall|i: int| 0 <= i < rest.len() implies schedulable(#[trigger] rest[i]) by {
            assert(rest[i] == groups[i]);
        }
        lemma_all_schedulable(rest);
        assert(schedulable(groups[groups.len() - 1]));
    }
}

} // verus!
