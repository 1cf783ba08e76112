//! Reminder groups: one reminder definition each.

use crate::cron_text::cron_accepts;
use crate::error::SchedulingError;
use crate::notice::{Notice, NoticeView};
use crate::registry::{JobEntry, JobRegistry, MAX_JOBS};
use std::sync::mpsc::Sender;
use vstd::prelude::*;

verus! {

/// How often a reminder repeats.
#[derive(Clone, Copy, Debug, PartialEq, Eq, Structural)]
pub enum Repeat {
    Never,
    Daily,
}

/// One reminder: what to show, whether it is switched on, and when it fires.
#[derive(Debug)]
pub struct Group {
    pub title: String,
    pub description: String,
    pub enabled: bool,
    /// Unique within a store; never changes once the store has assigned it.
    pub id: String,
    /// The handle of the group's job in the registry, if it has one.
    pub job_id: Option<u64>,
    pub cron: String,
    /// The last next-occurrence time that was computed, for display only.
    pub next_date: Option<u64>,
}

/// What is kept of a group on disk: all of it but the job handle.
#[derive(Clone, Debug, PartialEq, Eq)]
pub struct GroupRecord {
    pub title: String,
    pub description: String,
    pub enabled: bool,
    pub id: String,
    pub cron: String,
    pub next_date: Option<u64>,
}

/// The fields of a group that an update replaces.
#[derive(Clone, Debug, PartialEq, Eq)]
pub struct GroupFields {
    pub title: String,
    pub description: String,
    pub enabled: bool,
    pub cron: String,
    pub next_date: Option<u64>,
}

/// A record as plain values.
pub struct GroupRecordView {
    pub title: Seq<char>,
    pub description: Seq<char>,
    pub enabled: bool,
    pub id: Seq<char>,
    pub cron: Seq<char>,
    pub next_date: Option<u64>,
}

/// The replaceable fields as plain values.
pub struct GroupFieldsView {
    pub title: Seq<char>,
    pub description: Seq<char>,
    pub enabled: bool,
    pub cron: Seq<char>,
    pub next_date: Option<u64>,
}

/// A group as plain values.
pub struct GroupView {
    pub title: Seq<char>,
    pub description: Seq<char>,
    pub enabled: bool,
    pub id: Seq<char>,
    pub job_id: Option<u64>,
    pub cron: Seq<char>,
    pub next_date: Option<u64>,
}

impl View for GroupRecord {
    type V = GroupRecordView;

    open spec fn view(&self) -> GroupRecordView {
        GroupRecordView {
            title: self.title@,
            description: self.description@,
            enabled: self.enabled,
            id: self.id@,
            cron: self.cron@,
            next_date: self.next_date,
        }
    }
}

impl View for GroupFields {
    type V = GroupFieldsView;

    open spec fn view(&self) -> GroupFieldsView {
        GroupFieldsView {
            title: self.title@,
            description: self.description@,
            enabled: self.enabled,
            cron: self.cron@,
            next_date: self.next_date,
        }
    }
}

impl View for Group {
    type V = GroupView;

    open spec fn view(&self) -> GroupView {
        GroupView {
            title: self.title@,
            description: self.description@,
            enabled: self.enabled,
            id: self.id@,
            job_id: self.job_id,
            cron: self.cron@,
            next_date: self.next_date,
        }
    }
}

impl GroupView {
    /// The group without its job handle.
    pub open spec fn record(self) -> GroupRecordView {
        GroupRecordView {
            title: self.title,
            description: self.description,
            enabled: self.enabled,
            id: self.id,
            cron: self.cron,
            next_date: self.next_date,
        }
    }

    /// The same group under another job handle, or under none.
    pub open spec fn with_job(self, job_id: Option<u64>) -> GroupView {
        GroupView { job_id, ..self }
    }

    /// The group with its replaceable fields replaced.
    pub open spec fn with_fields(self, fields: GroupFieldsView) -> GroupView {
        GroupView {
            title: fields.title,
            description: fields.description,
            enabled: fields.enabled,
            cron: fields.cron,
            next_date: fields.next_date,
            ..self
        }
    }

    /// What the group's job sends when it fires, for an application `tag`.
    pub open spec fn notice(self, tag: Seq<char>) -> NoticeView {
        NoticeView { tag, title: self.title, body: self.description }
    }

    /// What the registry remembers of the group's job.
    pub open spec fn job_entry(self, tag: Seq<char>) -> JobEntry {
        JobEntry { cron: self.cron, notice: self.notice(tag) }
    }
}

impl GroupRecordView {
    /// The group of this record, without a job.
    pub open spec fn group(self) -> GroupView {
        GroupView {
            title: self.title,
            description: self.description,
            enabled: self.enabled,
            id: self.id,
            job_id: None,
            cron: self.cron,
            next_date: self.next_date,
        }
    }
}

impl Group {
    /// A group without an identifier and without a job.
    pub fn new(title: &str, description: &str, enabled: bool, cron: &str) -> (group: Group)
        ensures
            group@ == (GroupView {
                title: title@,
                description: description@,
                enabled,
                id: Seq::<char>::empty(),
                job_id: None,
                cron: cron@,
                next_date: None,
            }),
    {
        Group {
            title: title.to_owned(),
            description: description.to_owned(),
            enabled,
            id: String::new(),
            job_id: None,
            cron: cron.to_owned(),
            next_date: None,
        }
    }

    /// A second group with the same fields.
    pub fn duplicate(&self) -> (copy: Group)
        ensures
            copy@ == self@,
    {
        Group {
            title: self.title.clone(),
            description: self.description.clone(),
            enabled: self.enabled,
            id: self.id.clone(),
            job_id: self.job_id,
            cron: self.cron.clone(),
            next_date: self.next_date,
        }
    }

    /// What is kept of the group on disk.
    pub fn to_record(&self) -> (record: GroupRecord)
        ensures
            record@ == self@.record(),
    {
        GroupRecord {
            title: self.title.clone(),
            description: self.description.clone(),
            enabled: self.enabled,
            id: self.id.clone(),
            cron: self.cron.clone(),
            next_date: self.next_date,
        }
    }

    /// The group of a record. It has no job.
    pub fn from_record(record: &GroupRecord) -> (group: Group)
        ensures
            group@ == record@.group(),
    {
        Group {
            title: record.title.clone(),
            description: record.description.clone(),
            enabled: record.enabled,
            id: record.id.clone(),
            job_id: None,
            cron: record.cron.clone(),
            next_date: record.next_date,
        }
    }

    /// What the group's job sends when it fires.
    pub fn notice(&self, tag: &str) -> (notice: Notice)
        ensures
            notice@ == self@.notice(tag@),
    {
        Notice::new(tag, self.title.as_str(), self.description.as_str())
    }

    /// Gives an enabled group a job in the registry and notes its handle in
    /// the group. A disabled group is left as it is.
    ///
    /// An enabled group whose expression is not accepted gets `InvalidCron`,
    /// one that finds the registry full gets `RegistryFull`; `NeverFires` is
    /// the clock's verdict on an accepted expression. On an error neither the
    /// group nor the registry changes.
    pub fn create_job(
        &mut self,
        registry: &mut JobRegistry,
        tag: &str,
        sink: &Sender<Notice>,
    ) -> (created: Result<(), SchedulingError>)
        requires
            old(registry).wf(),
        ensures
            final(registry).wf(),
            !old(self).enabled ==> created is Ok,
            match created {
                Ok(()) => if old(self).enabled {
                    &&& cron_accepts(old(self).cron@)
                    &&& old(registry).jobs().dom().len() < MAX_JOBS
                    &&& final(self).job_id matches Some(handle)
                    &&& !old(registry).jobs().contains_key(handle)
                    &&& final(self)@ == old(self)@.with_job(Some(handle))
                    &&& final(registry).jobs() == old(registry).jobs().insert(
                        handle,
                        old(self)@.job_entry(tag@),
                    )
                } else {
                    &&& final(self)@ == old(self)@
                    &&& final(registry).jobs() == old(registry).jobs()
                },
                Err(e) => {
                    &&& old(self).enabled
                    &&& final(self)@ == old(self)@
                    &&& final(registry).jobs() == old(registry).jobs()
                    &&& e == SchedulingError::InvalidCron <==> !cron_accepts(old(self).cron@)
                    &&& e == SchedulingError::RegistryFull <==> cron_accepts(old(self).cron@)
                        && old(registry).jobs().dom().len() >= MAX_JOBS
                },
            },
    {
        if !self.enabled {
            return Ok(());
        }
        let notice = self.notice(tag);
        match registry.schedule(self.cron.as_str(), notice, sink) {
            Ok(handle) => {
                self.job_id = Some(handle);
                Ok(())
            },
            Err(e) => Err(e),
        }
    }
}

} // verus!
