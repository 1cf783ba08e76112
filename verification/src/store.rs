//! The reminder store: the groups in display order and, once started, the
//! registry of their jobs.

use crate::consistency::{
    lemma_group_replaced, lemma_job_assigned, lemma_job_released, lemma_with_group_wf,
    lemma_without_group_wf,
};
use crate::cron_text::{cron_accepts, is_valid_cron};
use crate::error::{SchedulingError, StoreError};
use crate::group::{Group, GroupFields, GroupRecord, GroupView};
use crate::ident::{is_valid_id, random_id};
use crate::model::{
    add_refused, candidate_views, drawn_until_unused, failed, first_unused_at, group_added,
    group_updated, group_views, groups_of, id_used, insert_refusal, jobs_match, no_jobs,
    none_unused, record_views, records_of, start_result, store_wf, unique_ids,
    unique_record_ids, update_refused, updated_store, with_group, without_group, InstanceView,
    ScheduleFailureView,
};
use crate::notice::Notice;
use crate::registry::{JobEntry, JobRegistry, MAX_JOBS};
use std::sync::mpsc::Sender;
use vstd::prelude::*;

verus! {

/// How many candidates `generate_id` draws before it gives up.
pub const MAX_ID_ATTEMPTS: usize = 100;

/// The store: groups, the registry once it runs, the tag that notices carry
/// and the sink they are sent to.
pub struct Instance {
    groups: Vec<Group>,
    registry: Option<JobRegistry>,
    bundle_identifier: String,
    sink: Sender<Notice>,
}

/// A group that `start` could not schedule.
#[derive(Debug)]
pub struct ScheduleFailure {
    /// The group's position in the store.
    pub index: usize,
    /// The group's identifier.
    pub id: String,
    pub reason: SchedulingError,
}

impl View for ScheduleFailure {
    type V = ScheduleFailureView;

    open spec fn view(&self) -> ScheduleFailureView {
        ScheduleFailureView { index: self.index as int, id: self.id@, reason: self.reason }
    }
}

/// The failures of a vector as plain values.
pub open spec fn failure_views(failures: Seq<ScheduleFailure>) -> Seq<ScheduleFailureView> {
    Seq::new(failures.len(), |i: int| failures[i]@)
}

impl View for Instance {
    type V = InstanceView;

    closed spec fn view(&self) -> InstanceView {
        InstanceView {
            groups: group_views(self.groups@),
            jobs: match self.registry {
                Some(registry) => Some(registry.jobs()),
                None => None,
            },
            bundle_identifier: self.bundle_identifier@,
        }
    }
}

impl Instance {
    /// The store's invariant.
    pub closed spec fn wf(&self) -> bool {
        &&& store_wf(self@)
        &&& self.registry matches Some(registry) ==> registry.wf()
    }

    /// What the invariant says of the store as plain values.
    pub proof fn lemma_wf(&self)
        requires
            self.wf(),
        ensures
            store_wf(self@),
            self@.jobs matches Some(jobs) ==> jobs.dom().finite() && jobs.dom().len() <= MAX_JOBS,
    {
        if let Some(registry) = self.registry {
            registry.lemma_jobs_accepted();
        }
    }

    /// An empty store that is not running.
    pub fn new(bundle_identifier: String, sink: Sender<Notice>) -> (store: Instance)
        ensures
            store.wf(),
            store@.groups == Seq::<GroupView>::empty(),
            store@.jobs is None,
            store@.bundle_identifier == bundle_identifier@,
    {
        let store = Instance { groups: Vec::new(), registry: None, bundle_identifier, sink };
        assert(store@.groups =~= Seq::<GroupView>::empty());
        store
    }

    /// A store of the groups that the records describe, in their order,
    /// not running. Records that share an identifier are refused.
    pub fn from_records(
        records: &Vec<GroupRecord>,
        bundle_identifier: String,
        sink: Sender<Notice>,
    ) -> (loaded: Result<Instance, StoreError>)
        ensures
            loaded is Ok <==> unique_record_ids(record_views(records@)),
            match loaded {
                Ok(store) => {
                    &&& store.wf()
                    &&& store@.groups == groups_of(record_views(records@))
                    &&& store@.jobs is None
                    &&& store@.bundle_identifier == bundle_identifier@
                },
                Err(e) => e == StoreError::DuplicateId,
            },
    {
        let ghost wanted = groups_of(record_views(records@));
        let mut store = Instance::new(bundle_identifier, sink);
        let mut index: usize = 0;
        while index < records.len()
            invariant
                index <= records@.len(),
                wanted == groups_of(record_views(records@)),
                store.registry is None,
                store.bundle_identifier@ == bundle_identifier@,
                store@.groups == wanted.take(index as int),
                unique_ids(store@.groups),
            decreases records@.len() - index,
        {
            let group = Group::from_record(&records[index]);
            if store.id_in_use(group.id.as_str()) {
                proof {
                    let j = choose|j: int|
                        0 <= j < store@.groups.len() && (#[trigger] store@.groups[j]).id == group.id@;
                    assert(store@.groups[j] == wanted[j]);
                    let views = record_views(records@);
                    assert(views[j].id == views[index as int].id);
                }
                return Err(StoreError::DuplicateId);
            }
            let ghost before = store@.groups;
            store.groups.push(group);
            proof {
                assert(store@.groups =~= before.push(group@));
                assert(store@.groups =~= wanted.take(index + 1));
                assert forall|i: int, j: int| 0 <= i < j < store@.groups.len() implies
                    (#[trigger] store@.groups[i]).id != (#[trigger] store@.groups[j]).id by {
                    if j == before.len() {
                        assert(before[i].id != group.id@);
                    } else {
                        assert(before[i].id != before[j].id);
                    }
                }
            }
            index = index + 1;
        }
        proof {
            assert(wanted.take(index as int) =~= wanted);
            let views = record_views(records@);
            assert forall|i: int, j: int| 0 <= i < j < views.len() implies (#[trigger] views[i]).id
                != (#[trigger] views[j]).id by {
                assert(store@.groups[i].id != store@.groups[j].id);
            }
            assert forall|i: int| 0 <= i < store@.groups.len() implies
                (#[trigger] store@.groups[i]).job_id is None by {}
        }
        Ok(store)
    }

    /// The number of groups.
    pub fn len(&self) -> (n: usize)
        ensures
            n == self@.groups.len(),
    {
        self.groups.len()
    }

    /// Whether the registry runs.
    pub fn is_running(&self) -> (running: bool)
        ensures
            running == self@.jobs is Some,
    {
        self.registry.is_some()
    }

    /// Whether the running registry has a job under the handle.
    pub fn has_job(&self, handle: u64) -> (found: bool)
        requires
            self.wf(),
        ensures
            found == (self@.jobs matches Some(jobs) && jobs.contains_key(handle)),
    {
        match &self.registry {
            Some(registry) => registry.contains(handle),
            None => false,
        }
    }

    /// The number of jobs in the registry; none while it does not run.
    pub fn job_count(&self) -> (n: usize)
        requires
            self.wf(),
        ensures
            n == match self@.jobs {
                Some(jobs) => jobs.dom().len(),
                None => 0,
            },
    {
        match &self.registry {
            Some(registry) => registry.len(),
            None => 0,
        }
    }

    /// The tag that notices carry.
    pub fn bundle_identifier(&self) -> (tag: &str)
        ensures
            tag@ == self@.bundle_identifier,
    {
        self.bundle_identifier.as_str()
    }

    /// A copy of the group at `index`.
    pub fn group(&self, index: usize) -> (found: Option<Group>)
        ensures
            match found {
                Some(group) => index < self@.groups.len() && group@ == self@.groups[index as int],
                None => index >= self@.groups.len(),
            },
    {
        if index < self.groups.len() {
            Some(self.groups[index].duplicate())
        } else {
            None
        }
    }

    /// The position of the group with the identifier.
    pub fn find(&self, id: &str) -> (found: Option<usize>)
        ensures
            match found {
                Some(index) => {
                    &&& index < self@.groups.len()
                    &&& self@.groups[index as int].id == id@
                    &&& forall|k: int| 0 <= k < index ==> (#[trigger] self@.groups[k]).id != id@
                },
                None => !id_used(self@.groups, id@),
            },
    {
        let wanted = id.to_owned();
        let mut index: usize = 0;
        while index < self.groups.len()
            invariant
                wanted@ == id@,
                index <= self.groups.len(),
                forall|k: int| 0 <= k < index ==> (#[trigger] self@.groups[k]).id != id@,
            decreases self.groups.len() - index,
        {
            if self.groups[index].id == wanted {
                return Some(index);
            }
            index = index + 1;
        }
        None
    }

    /// Whether some group has the identifier.
    pub fn id_in_use(&self, id: &str) -> (used: bool)
        ensures
            used == id_used(self@.groups, id@),
    {
        self.find(id).is_some()
    }

    /// What is kept of the groups on disk, in order.
    pub fn snapshot(&self) -> (records: Vec<GroupRecord>)
        ensures
            record_views(records@) == records_of(self@.groups),
    {
        let mut records: Vec<GroupRecord> = Vec::new();
        let mut index: usize = 0;
        while index < self.groups.len()
            invariant
                index <= self.groups.len(),
                records@.len() == index,
                forall|k: int| 0 <= k < index ==> (#[trigger] records@[k])@ == self@.groups[k].record(),
            decreases self.groups.len() - index,
        {
            records.push(self.groups[index].to_record());
            index = index + 1;
        }
        assert(record_views(records@) =~= records_of(self@.groups));
        records
    }

    /// The first of the candidates, among the first `MAX_ID_ATTEMPTS`, that no
    /// group has as its identifier.
    pub fn first_unused_id(&self, candidates: &Vec<String>) -> (chosen: Result<String, StoreError>)
        ensures
            match chosen {
                Ok(id) => exists|k: int|
                    #[trigger] first_unused_at(self@.groups, candidate_views(candidates@), k) && id@
                        == candidates@[k]@,
                Err(e) => {
                    &&& e == StoreError::IdGenerationExhausted
                    &&& none_unused(self@.groups, candidate_views(candidates@))
                },
            },
    {
        let ghost views = candidate_views(candidates@);
        let mut attempt: usize = 0;
        while attempt < candidates.len() && attempt < MAX_ID_ATTEMPTS
            invariant
                views == candidate_views(candidates@),
                attempt <= candidates@.len(),
                attempt <= MAX_ID_ATTEMPTS,
                forall|j: int| 0 <= j < attempt ==> id_used(self@.groups, #[trigger] views[j]),
            decreases candidates@.len() - attempt,
        {
            if !self.id_in_use(candidates[attempt].as_str()) {
                assert(first_unused_at(self@.groups, views, attempt as int));
                return Ok(candidates[attempt].clone());
            }
            attempt = attempt + 1;
        }
        Err(StoreError::IdGenerationExhausted)
    }

    /// Draws random identifiers, one after the other, until one is unused or
    /// `MAX_ID_ATTEMPTS` are drawn, and takes of them what `first_unused_id`
    /// takes: the one drawn last, if no group has it.
    ///
    /// Which identifiers are drawn is left to chance; a store without groups
    /// takes the first.
    pub fn generate_id(&self) -> (generated: Result<String, StoreError>)
        ensures
            match generated {
                Ok(id) => {
                    &&& exists|drawn: Seq<Seq<char>>| #[trigger]
                        drawn_until_unused(self@.groups, drawn, Some(id@))
                    &&& is_valid_id(id@)
                    &&& !id_used(self@.groups, id@)
                },
                Err(e) => {
                    &&& exists|drawn: Seq<Seq<char>>| #[trigger]
                        drawn_until_unused(self@.groups, drawn, None)
                    &&& e == StoreError::IdGenerationExhausted
                    &&& self@.groups.len() > 0
                },
            },
    {
        let mut drawn: Vec<String> = Vec::new();
        let mut unused = false;
        while drawn.len() < MAX_ID_ATTEMPTS && !unused
            invariant
                drawn@.len() <= MAX_ID_ATTEMPTS,
                !unused ==> none_unused(self@.groups, candidate_views(drawn@)),
                unused ==> first_unused_at(
                    self@.groups,
                    candidate_views(drawn@),
                    drawn@.len() - 1,
                ),
                forall|i: int|
                    0 <= i < drawn@.len() ==> is_valid_id(#[trigger] candidate_views(drawn@)[i]),
            decreases MAX_ID_ATTEMPTS - drawn@.len() + (if unused { 0int } else { 1int }),
        {
            let ghost before = candidate_views(drawn@);
            let candidate = random_id();
            unused = !self.id_in_use(candidate.as_str());
            drawn.push(candidate);
            proof {
                let now = candidate_views(drawn@);
                assert(now =~= before.push(candidate@));
                assert forall|j: int| 0 <= j < before.len() implies id_used(
                    self@.groups,
                    #[trigger] now[j],
                ) by {
                    assert(now[j] == before[j]);
                }
                assert forall|i: int| 0 <= i < now.len() implies is_valid_id(#[trigger] now[i]) by {
                    if i < before.len() {
                        assert(now[i] == before[i]);
                    }
                }
            }
        }
        let chosen = self.first_unused_id(&drawn);
        proof {
            let views = candidate_views(drawn@);
            let last = views.len() - 1;
            match &chosen {
                Ok(id) => {
                    let k = choose|k: int|
                        #[trigger] first_unused_at(self@.groups, views, k) && id@ == drawn@[k]@;
                    assert(id@ == views[k]);
                    if unused {
                        if k < last {
                            assert(id_used(self@.groups, views[k]));
                        }
                    } else {
                        assert(id_used(self@.groups, views[k]));
                    }
                    assert(k == last);
                    assert(drawn_until_unused(self@.groups, views, Some(id@)));
                },
                Err(_) => {
                    if unused {
                        assert(id_used(self@.groups, views[last]));
                    }
                    assert(id_used(self@.groups, views[0]));
                    assert(drawn_until_unused(self@.groups, views, None));
                },
            }
        }
        chosen
    }

    /// Appends a group under the identifier it carries. An enabled group
    /// gets a job at once if the registry runs; otherwise the next `start`
    /// gives it one. The handle that `group` carries is not looked at.
    ///
    /// Nothing changes on an error.
    pub fn insert_group(&mut self, group: Group) -> (inserted: Result<(), StoreError>)
        requires
            old(self).wf(),
        ensures
            final(self).wf(),
            match inserted {
                Ok(()) => {
                    let job = final(self)@.groups.last().job_id;
                    &&& insert_refusal(old(self)@, group@) is None
                    &&& final(self)@ == with_group(old(self)@, group@, job)
                    &&& job is Some <==> group.enabled && old(self)@.jobs is Some
                    &&& job matches Some(h) ==> !old(self)@.jobs->0.contains_key(h)
                },
                Err(e) => {
                    &&& final(self)@ == old(self)@
                    &&& match insert_refusal(old(self)@, group@) {
                        Some(refusal) => e == refusal,
                        None => {
                            &&& e == StoreError::Scheduling(SchedulingError::NeverFires)
                            &&& group.enabled
                            &&& old(self)@.jobs is Some
                        },
                    }
                },
            },
    {
        let mut group = group;
        if self.id_in_use(group.id.as_str()) {
            return Err(StoreError::DuplicateId);
        }
        group.job_id = None;
        match &mut self.registry {
            Some(registry) => {
                match group.create_job(registry, self.bundle_identifier.as_str(), &self.sink) {
                    Ok(()) => {},
                    Err(e) => {
                        return Err(StoreError::Scheduling(e));
                    },
                }
            },
            None => {
                if group.enabled && !is_valid_cron(group.cron.as_str()) {
                    return Err(StoreError::Scheduling(SchedulingError::InvalidCron));
                }
            },
        }
        self.groups.push(group);
        proof {
            assert(self@.groups =~= old(self)@.groups.push(group@));
            lemma_with_group_wf(old(self)@, group@.with_job(None), group.job_id);
        }
        Ok(())
    }

    /// Appends a group under a fresh identifier: seven symbols of the
    /// alphabet that no group of the store has. The identifier and the
    /// handle that `group` carries are not looked at.
    ///
    /// An enabled group whose expression is not accepted is refused before an
    /// identifier is drawn. Nothing changes on an error.
    pub fn add_group(&mut self, group: Group) -> (added: Result<(), StoreError>)
        requires
            old(self).wf(),
        ensures
            final(self).wf(),
            match added {
                Ok(()) => group_added(old(self)@, final(self)@, group@),
                Err(e) => final(self)@ == old(self)@ && add_refused(old(self)@, group@, e),
            },
    {
        let mut group = group;
        if group.enabled && !is_valid_cron(group.cron.as_str()) {
            return Err(StoreError::Scheduling(SchedulingError::InvalidCron));
        }
        match self.generate_id() {
            Ok(id) => {
                group.id = id;
            },
            Err(e) => {
                return Err(e);
            },
        }
        self.insert_group(group)
    }

    /// Replaces the title, description, switch, expression and next date of
    /// the group with the identifier `id`, and returns the group's position.
    ///
    /// If the expression or the switch changed, the group's job is made
    /// anew: the new job is made first, then the old one is cancelled, so a
    /// refused update leaves the old job running. If neither changed, the
    /// registry is not touched. Nothing changes on an error.
    pub fn update_group(&mut self, id: &str, fields: GroupFields) -> (updated: Result<
        usize,
        StoreError,
    >)
        requires
            old(self).wf(),
        ensures
            final(self).wf(),
            match updated {
                Ok(index) => group_updated(old(self)@, final(self)@, index as int, id@, fields@),
                Err(e) => final(self)@ == old(self)@ && update_refused(
                    old(self)@,
                    id@,
                    fields@,
                    e,
                ),
            },
    {
        let index = match self.find(id) {
            Some(index) => index,
            None => {
                return Err(StoreError::NotFound);
            },
        };
        proof {
            assert forall|i: int|
                0 <= i < self@.groups.len() && (#[trigger] self@.groups[i]).id == id@ implies i
                == index by {
                if i < index {
                } else if i > index {
                    assert(self@.groups[index as int].id != self@.groups[i].id);
                }
            }
        }
        let ghost before = self@.groups[index as int];
        let changed = !(self.groups[index].cron == fields.cron) || self.groups[index].enabled
            != fields.enabled;
        let old_handle = self.groups[index].job_id;
        let mut new_handle = old_handle;
        if changed {
            new_handle = None;
            match &mut self.registry {
                Some(registry) => {
                    if fields.enabled {
                        let notice = Notice::new(
                            self.bundle_identifier.as_str(),
                            fields.title.as_str(),
                            fields.description.as_str(),
                        );
                        match registry.schedule(fields.cron.as_str(), notice, &self.sink) {
                            Ok(handle) => {
                                new_handle = Some(handle);
                            },
                            Err(e) => {
                                return Err(StoreError::Scheduling(e));
                            },
                        }
                    }
                    if let Some(h0) = old_handle {
                        registry.cancel(h0);
                    }
                },
                None => {
                    if fields.enabled && !is_valid_cron(fields.cron.as_str()) {
                        return Err(StoreError::Scheduling(SchedulingError::InvalidCron));
                    }
                },
            }
        }
        let replaced = Group {
            title: fields.title,
            description: fields.description,
            enabled: fields.enabled,
            id: self.groups[index].id.clone(),
            job_id: new_handle,
            cron: fields.cron,
            next_date: fields.next_date,
        };
        self.groups[index] = replaced;
        proof {
            let v = old(self)@;
            let g2 = before.with_fields(fields@).with_job(new_handle);
            assert(self@.groups =~= v.groups.update(index as int, g2));
            assert(self@.bundle_identifier == v.bundle_identifier);
            assert forall|i: int, j: int| 0 <= i < j < self@.groups.len() implies
                (#[trigger] self@.groups[i]).id != (#[trigger] self@.groups[j]).id by {
                assert(self@.groups[i].id == v.groups[i].id);
                assert(self@.groups[j].id == v.groups[j].id);
            }
            match v.jobs {
                Some(jobs) => {
                    let tag = v.bundle_identifier;
                    if !changed {
                        lemma_group_replaced(v.groups, jobs, tag, index as int, g2);
                    } else {
                        // release the old job, replace the fields, assign the new job
                        let (groups1, jobs1) = match before.job_id {
                            Some(h0) => {
                                lemma_job_released(v.groups, jobs, tag, index as int);
                                (v.groups.update(index as int, before.with_job(None)), jobs.remove(h0))
                            },
                            None => (v.groups, jobs),
                        };
                        assert(groups1 =~= v.groups.update(index as int, before.with_job(None)));
                        let bare = before.with_fields(fields@).with_job(None);
                        lemma_group_replaced(groups1, jobs1, tag, index as int, bare);
                        let groups2 = groups1.update(index as int, bare);
                        assert(groups2 =~= v.groups.update(index as int, bare));
                        match new_handle {
                            Some(h) => {
                                lemma_job_assigned(
                                    groups2,
                                    jobs1,
                                    tag,
                                    index as int,
                                    h,
                                    g2.job_entry(tag),
                                );
                                assert(groups2.update(index as int, bare.with_job(Some(h)))
                                    =~= self@.groups);
                                assert(self@.jobs->0 =~= jobs1.insert(h, g2.job_entry(tag)));
                            },
                            None => {
                                assert(groups2 =~= self@.groups);
                                assert(self@.jobs->0 =~= jobs1);
                            },
                        }
                    }
                },
                None => {
                    assert forall|i: int| 0 <= i < self@.groups.len() implies
                        (#[trigger] self@.groups[i]).job_id is None by {
                        if i != index {
                            assert(self@.groups[i] == v.groups[i]);
                        }
                    }
                },
            }
            assert(self@ == updated_store(v, index as int, fields@, new_handle));
        }
        Ok(index)
    }

    /// Removes the group with the identifier `id`, and its job with it.
    pub fn remove_group(&mut self, id: &str) -> (removed: Result<usize, StoreError>)
        requires
            old(self).wf(),
        ensures
            final(self).wf(),
            match removed {
                Ok(index) => {
                    &&& index < old(self)@.groups.len()
                    &&& old(self)@.groups[index as int].id == id@
                    &&& final(self)@ == without_group(old(self)@, index as int)
                },
                Err(e) => {
                    &&& e == StoreError::NotFound
                    &&& !id_used(old(self)@.groups, id@)
                    &&& final(self)@ == old(self)@
                },
            },
    {
        match self.find(id) {
            Some(index) => match self.delete_group(index) {
                Ok(()) => Ok(index),
                Err(e) => Err(e),
            },
            None => Err(StoreError::NotFound),
        }
    }

    /// Launches the registry and gives every enabled group a job.
    ///
    /// A group that cannot be scheduled is reported and stays without a job;
    /// the others are scheduled all the same. On a running store nothing
    /// happens. The registry's loop runs on the current tokio runtime and
    /// sleeps on its timer: without a current runtime the result is
    /// `NoRuntime` and nothing has changed.
    pub fn start(&mut self) -> (started: Result<Vec<ScheduleFailure>, StoreError>)
        requires
            old(self).wf(),
        ensures
            final(self).wf(),
            match started {
                Ok(failures) => if old(self)@.jobs is Some {
                    final(self)@ == old(self)@ && failures@.len() == 0
                } else {
                    start_result(old(self)@, final(self)@, failure_views(failures@))
                },
                Err(e) => {
                    &&& e == StoreError::NoRuntime
                    &&& old(self)@.jobs is None
                    &&& final(self)@ == old(self)@
                },
            },
    {
        if self.registry.is_some() {
            return Ok(Vec::new());
        }
        match JobRegistry::launch() {
            Some(registry) => Ok(self.start_with(registry)),
            None => Err(StoreError::NoRuntime),
        }
    }

    /// Takes a registry that was launched and has no job yet, and gives
    /// every enabled group a job in it. The store runs from then on.
    ///
    /// A group that cannot be scheduled is reported and stays without a job;
    /// the others are scheduled all the same.
    pub fn start_with(&mut self, registry: JobRegistry) -> (failures: Vec<ScheduleFailure>)
        requires
            old(self).wf(),
            old(self)@.jobs is None,
            registry.wf(),
            registry.jobs() == Map::<u64, JobEntry>::empty(),
        ensures
            final(self).wf(),
            start_result(old(self)@, final(self)@, failure_views(failures@)),
    {
        let mut registry = registry;
        let mut failures: Vec<ScheduleFailure> = Vec::new();
        let ghost pre = self@;
        let ghost tag = pre.bundle_identifier;
        proof {
            assert forall|i: int| 0 <= i < pre.groups.len() implies
                (#[trigger] self.groups@[i]).job_id is None by {
                assert(pre.groups[i].job_id is None);
            }
        }
        let mut index: usize = 0;
        while index < self.groups.len()
            invariant
                index <= self.groups.len(),
                self.registry is None,
                self.bundle_identifier@ == tag,
                pre.bundle_identifier == tag,
                registry.wf(),
                unique_ids(pre.groups),
                no_jobs(pre.groups),
                self.groups@.len() == pre.groups.len(),
                forall|i: int|
                    0 <= i < pre.groups.len() ==> (#[trigger] self.groups@[i])@ == pre.groups[i].with_job(
                        self.groups@[i].job_id,
                    ),
                forall|i: int|
                    index <= i < pre.groups.len() ==> (#[trigger] self.groups@[i]).job_id is None,
                jobs_match(group_views(self.groups@), registry.jobs(), tag),
                forall|i: int|
                    0 <= i < pre.groups.len() ==> ((#[trigger] self.groups@[i]).job_id matches Some(
                        h,
                    ) ==> registry.jobs().contains_key(h) && registry.jobs()[h]
                        == pre.groups[i].job_entry(tag)),
                forall|i: int|
                    0 <= i < index ==> ((#[trigger] self.groups@[i]).job_id is Some
                        <==> pre.groups[i].enabled && !failed(failure_views(failures@), i)),
                forall|k: int|
                    0 <= k < failures@.len() ==> {
                        let f = (#[trigger] failures@[k])@;
                        &&& 0 <= f.index < index
                        &&& f.id == pre.groups[f.index].id
                        &&& pre.groups[f.index].enabled
                        &&& f.reason == SchedulingError::InvalidCron <==> !cron_accepts(
                            pre.groups[f.index].cron,
                        )
                    },
                forall|k: int, l: int|
                    0 <= k < l < failures@.len() ==> (#[trigger] failures@[k]).index < (
                    #[trigger] failures@[l]).index,
            decreases self.groups.len() - index,
        {
            let ghost views = group_views(self.groups@);
            let ghost jobs = registry.jobs();
            let ghost reported = failure_views(failures@);
            let created = self.groups[index].create_job(
                &mut registry,
                self.bundle_identifier.as_str(),
                &self.sink,
            );
            match created {
                Ok(()) => {
                    proof {
                        let i = index as int;
                        if pre.groups[i].enabled {
                            let h = self.groups@[i].job_id->0;
                            assert(views[i] == pre.groups[i]);
                            lemma_job_assigned(views, jobs, tag, i, h, pre.groups[i].job_entry(tag));
                            assert(group_views(self.groups@) =~= views.update(
                                i,
                                views[i].with_job(Some(h)),
                            ));
                            assert forall|k: int| 0 <= k < reported.len() implies
                                (#[trigger] reported[k]).index != i by {
                                assert(failures@[k]@.index < index);
                            }
                            assert(!failed(reported, i));
                        } else {
                            assert(group_views(self.groups@) =~= views);
                        }
                    }
                },
                Err(reason) => {
                    assert(group_views(self.groups@) =~= views);
                    let failure = ScheduleFailure {
                        index,
                        id: self.groups[index].id.clone(),
                        reason,
                    };
                    failures.push(failure);
                    proof {
                        let now = failure_views(failures@);
                        assert(now[reported.len() as int].index == index);
                        assert(failed(now, index as int));
                        assert forall|i: int| 0 <= i < index implies (failed(now, i) <==> failed(
                            reported,
                            i,
                        )) by {
                            if failed(now, i) {
                                let k = choose|k: int|
                                    0 <= k < now.len() && (#[trigger] now[k]).index == i;
                                assert(k < reported.len());
                                assert(reported[k].index == i);
                            }
                            if failed(reported, i) {
                                let k = choose|k: int|
                                    0 <= k < reported.len() && (#[trigger] reported[k]).index == i;
                                assert(now[k].index == i);
                            }
                        }
                    }
                },
            }
            index = index + 1;
        }
        self.registry = Some(registry);
        proof {
            assert(self@.groups =~= group_views(self.groups@));
            assert forall|i: int, j: int| 0 <= i < j < self@.groups.len() implies
                (#[trigger] self@.groups[i]).id != (#[trigger] self@.groups[j]).id by {
                assert(pre.groups[i].id != pre.groups[j].id);
            }
        }
        failures
    }

    /// Removes the group at `index`, and its job with it.
    pub fn delete_group(&mut self, index: usize) -> (deleted: Result<(), StoreError>)
        requires
            old(self).wf(),
        ensures
            final(self).wf(),
            match deleted {
                Ok(()) => index < old(self)@.groups.len() && final(self)@ == without_group(
                    old(self)@,
                    index as int,
                ),
                Err(e) => {
                    &&& e == StoreError::IndexOutOfRange
                    &&& index >= old(self)@.groups.len()
                    &&& final(self)@ == old(self)@
                },
            },
    {
        if index >= self.groups.len() {
            return Err(StoreError::IndexOutOfRange);
        }
        let handle = self.groups[index].job_id;
        match &mut self.registry {
            Some(registry) => {
                if let Some(h) = handle {
                    registry.cancel(h);
                }
            },
            None => {},
        }
        self.groups.remove(index);
        proof {
            assert(self@.groups =~= old(self)@.groups.remove(index as int));
            lemma_without_group_wf(old(self)@, index as int);
        }
        Ok(())
    }
}

} // verus!
