//! The operations a front end calls: each does one thing to the store and
//! returns the list of groups as it is to be shown and saved.

use crate::error::StoreError;
use crate::group::{Group, GroupFields, GroupRecord};
use crate::model::{
    add_refused, group_added, group_updated, record_views, records_of, update_refused,
    without_group,
};
use crate::store::Instance;
use vstd::prelude::*;

verus! {

/// The groups in display order, without their job handles.
pub fn get_groups(instance: &Instance) -> (records: Vec<GroupRecord>)
    ensures
        record_views(records@) == records_of(instance@.groups),
{
    instance.snapshot()
}

/// Adds a group under a fresh identifier and returns the list.
///
/// Nothing changes on an error.
pub fn new_group(instance: &mut Instance, group: Group) -> (created: Result<
    Vec<GroupRecord>,
    StoreError,
>)
    requires
        old(instance).wf(),
    ensures
        final(instance).wf(),
        match created {
            Ok(records) => {
                &&& group_added(old(instance)@, final(instance)@, group@)
                &&& record_views(records@) == records_of(final(instance)@.groups)
            },
            Err(e) => final(instance)@ == old(instance)@ && add_refused(old(instance)@, group@, e),
        },
{
    match instance.add_group(group) {
        Ok(()) => Ok(instance.snapshot()),
        Err(e) => Err(e),
    }
}

/// Replaces the fields of the group with the identifier `id` and returns
/// the list.
///
/// Nothing changes on an error.
pub fn update_group(instance: &mut Instance, id: &str, fields: GroupFields) -> (updated: Result<
    Vec<GroupRecord>,
    StoreError,
>)
    requires
        old(instance).wf(),
    ensures
        final(instance).wf(),
        match updated {
            Ok(records) => {
                &&& exists|index: int|
                    group_updated(old(instance)@, final(instance)@, index, id@, fields@)
                &&& record_views(records@) == records_of(final(instance)@.groups)
            },
            Err(e) => final(instance)@ == old(instance)@ && update_refused(
                old(instance)@,
                id@,
                fields@,
                e,
            ),
        },
{
    match instance.update_group(id, fields) {
        Ok(index) => {
            assert(group_updated(old(instance)@, instance@, index as int, id@, fields@));
            Ok(instance.snapshot())
        },
        Err(e) => Err(e),
    }
}

/// Removes the group at `index`, cancels its job and returns the list.
///
/// Nothing changes on an error.
pub fn delete_group(instance: &mut Instance, index: usize) -> (deleted: Result<
    Vec<GroupRecord>,
    StoreError,
>)
    requires
        old(instance).wf(),
    ensures
        final(instance).wf(),
        match deleted {
            Ok(records) => {
                &&& index < old(instance)@.groups.len()
                &&& final(instance)@ == without_group(old(instance)@, index as int)
                &&& record_views(records@) == records_of(final(instance)@.groups)
            },
            Err(e) => {
                &&& e == StoreError::IndexOutOfRange
                &&& index >= old(instance)@.groups.len()
                &&& final(instance)@ == old(instance)@
            },
        },
{
    match instance.delete_group(index) {
        Ok(()) => Ok(instance.snapshot()),
        Err(e) => Err(e),
    }
}

} // verus!
