//! Error values of the store and of the job registry.

use vstd::prelude::*;

verus! {

/// Why a group could not be given a job.
#[derive(Clone, Copy, Debug, PartialEq, Eq, Structural)]
pub enum SchedulingError {
    /// The cron expression is not accepted.
    InvalidCron,
    /// The expression is accepted but no job could be made of it: it has no
    /// occurrence ahead of the clock, or the search for one did not end well.
    NeverFires,
    /// The registry holds as many jobs as the scheduler can take.
    RegistryFull,
}

/// Why an operation on the store was refused.
#[derive(Clone, Copy, Debug, PartialEq, Eq, Structural)]
pub enum StoreError {
    /// The group is enabled and could not be scheduled.
    Scheduling(SchedulingError),
    /// No group has the given identifier.
    NotFound,
    /// The index is not below the number of groups.
    IndexOutOfRange,
    /// No unused identifier was found within the allowed attempts.
    IdGenerationExhausted,
    /// Two groups of a collection share an identifier.
    DuplicateId,
    /// The background loop could not be launched: no async runtime is current.
    NoRuntime,
}

/// The message that goes with an error.
pub open spec fn message_text(e: StoreError) -> Seq<char> {
    match e {
        StoreError::Scheduling(SchedulingError::InvalidCron) => {
            "Invalid schedule: the cron expression cannot be parsed"@
        },
        StoreError::Scheduling(SchedulingError::NeverFires) => {
            "Invalid schedule: the cron expression never fires again"@
        },
        StoreError::Scheduling(SchedulingError::RegistryFull) => {
            "The scheduler cannot take another job"@
        },
        StoreError::NotFound => "No reminder has this id"@,
        StoreError::IndexOutOfRange => "No reminder at this position"@,
        StoreError::IdGenerationExhausted => "Error generating ID: generated IDs already exist"@,
        StoreError::DuplicateId => "Two reminders share an id"@,
        StoreError::NoRuntime => "The reminder scheduler could not be started"@,
    }
}

impl StoreError {
    /// A message for the user.
    pub fn message(&self) -> (text: String)
        ensures
            text@ == message_text(*self),
    {
        match self {
            StoreError::Scheduling(SchedulingError::InvalidCron) => {
                "Invalid schedule: the cron expression cannot be parsed".to_string()
            },
            StoreError::Scheduling(SchedulingError::NeverFires) => {
                "Invalid schedule: the cron expression never fires again".to_string()
            },
            StoreError::Scheduling(SchedulingError::RegistryFull) => {
                "The scheduler cannot take another job".to_string()
            },
            StoreError::NotFound => "No reminder has this id".to_string(),
            StoreError::IndexOutOfRange => "No reminder at this position".to_string(),
            StoreError::IdGenerationExhausted => {
                "Error generating ID: generated IDs already exist".to_string()
            },
            StoreError::DuplicateId => "Two reminders share an id".to_string(),
            StoreError::NoRuntime => "The reminder scheduler could not be started".to_string(),
        }
    }
}

} // verus!
