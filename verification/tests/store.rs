use reminders::commands::{delete_group, get_groups, new_group, update_group};
use reminders::error::{SchedulingError, StoreError};
use reminders::group::{Group, GroupFields, GroupRecord};
use reminders::ident::ALPHABET;
use reminders::notice::Notice;
use reminders::registry::JobRegistry;
use reminders::store::Instance;
use std::sync::mpsc::{channel, Receiver};
use tokio::runtime::{Builder, Runtime};

const TAG: &str = "com.example.reminders";

fn runtime() -> Runtime {
    Builder::new_current_thread().enable_time().build().unwrap()
}

fn empty_store() -> (Instance, Receiver<Notice>) {
    let (sink, received) = channel::<Notice>();
    (Instance::new(TAG.to_string(), sink), received)
}

fn record(id: &str, title: &str, cron: &str, enabled: bool) -> GroupRecord {
    GroupRecord {
        title: title.to_string(),
        description: format!("about {}", title),
        enabled,
        id: id.to_string(),
        cron: cron.to_string(),
        next_date: None,
    }
}

fn fields(title: &str, description: &str, enabled: bool, cron: &str) -> GroupFields {
    GroupFields {
        title: title.to_string(),
        description: description.to_string(),
        enabled,
        cron: cron.to_string(),
        next_date: None,
    }
}

fn is_generated_id(id: &str) -> bool {
    id.chars().count() == 7 && id.chars().all(|c| ALPHABET.contains(&c))
}

#[test]
fn new_store_is_empty_and_not_running() {
    let (store, _received) = empty_store();
    assert_eq!(store.len(), 0);
    assert!(!store.is_running());
    assert_eq!(store.bundle_identifier(), TAG);
    assert_eq!(store.job_count(), 0);
    assert!(get_groups(&store).is_empty());
    assert!(store.group(0).is_none());
}

#[test]
fn start_without_a_runtime_reports_it_and_changes_nothing() {
    let (mut store, _received) = empty_store();
    store.add_group(Group::new("a", "b", true, "0 0 9 * * *")).unwrap();
    assert_eq!(store.start().unwrap_err(), StoreError::NoRuntime);
    assert!(!store.is_running());
    assert_eq!(store.group(0).unwrap().job_id, None);
}

#[test]
fn added_group_waits_for_start_when_not_running() {
    let (mut store, _received) = empty_store();
    store.add_group(Group::new("Water plants", "The ferns first", true, "0 0 9 * * *")).unwrap();
    assert_eq!(store.len(), 1);
    let group = store.group(0).unwrap();
    assert!(is_generated_id(&group.id));
    assert_eq!(group.job_id, None);
    assert_eq!(group.title, "Water plants");

    let rt = runtime();
    let _guard = rt.enter();
    let failures = store.start().unwrap();
    assert!(failures.is_empty());
    assert!(store.is_running());
    let handle = store.group(0).unwrap().job_id.unwrap();
    assert!(store.has_job(handle));
    assert_eq!(store.job_count(), 1);
}

#[test]
fn created_group_gets_an_id_and_a_job_and_loses_the_job_when_disabled() {
    let rt = runtime();
    let _guard = rt.enter();
    let (mut store, _received) = empty_store();
    assert!(store.start().unwrap().is_empty());

    let listed = new_group(&mut store, Group::new("Water plants", "", true, "0 0 9 * * *")).unwrap();
    assert_eq!(listed.len(), 1);
    assert_eq!(listed[0].id.chars().count(), 7);
    assert!(is_generated_id(&listed[0].id));
    assert!(listed[0].enabled);
    assert_eq!(listed[0].title, "Water plants");
    assert_eq!(listed[0].cron, "0 0 9 * * *");
    assert_eq!(get_groups(&store), listed);
    let handle = store.group(0).unwrap().job_id.unwrap();
    assert!(store.has_job(handle));

    let id = listed[0].id.clone();
    let listed = update_group(&mut store, &id, fields("Water plants", "", false, "0 0 9 * * *")).unwrap();
    assert_eq!(listed.len(), 1);
    assert_eq!(listed[0].id, id);
    assert!(!listed[0].enabled);
    assert_eq!(store.group(0).unwrap().job_id, None);
    assert!(!store.has_job(handle));
    assert_eq!(store.job_count(), 0);

    // starting again is a no-op and schedules nothing for the disabled group
    assert!(store.start().unwrap().is_empty());
    assert_eq!(store.group(0).unwrap().job_id, None);
    assert_eq!(store.job_count(), 0);
}

#[test]
fn disabled_group_is_not_scheduled_by_start() {
    let rt = runtime();
    let _guard = rt.enter();
    let records = vec![record("aaaaaaa", "off", "0 0 9 * * *", false)];
    let (sink, _received) = channel::<Notice>();
    let mut store = Instance::from_records(&records, TAG.to_string(), sink).unwrap();
    assert!(store.start().unwrap().is_empty());
    assert!(store.is_running());
    assert_eq!(store.group(0).unwrap().job_id, None);
    assert_eq!(store.job_count(), 0);
}

#[test]
fn invalid_cron_is_rejected_and_nothing_is_inserted() {
    let (mut store, _received) = empty_store();
    let refused = new_group(&mut store, Group::new("x", "y", true, "not-a-cron"));
    assert_eq!(refused.unwrap_err(), StoreError::Scheduling(SchedulingError::InvalidCron));
    assert!(get_groups(&store).is_empty());

    let rt = runtime();
    let _guard = rt.enter();
    store.start().unwrap();
    let refused = new_group(&mut store, Group::new("x", "y", true, "not-a-cron"));
    assert_eq!(refused.unwrap_err(), StoreError::Scheduling(SchedulingError::InvalidCron));
    assert!(get_groups(&store).is_empty());
    assert_eq!(store.job_count(), 0);
}

#[test]
fn zero_step_is_rejected_like_any_invalid_cron() {
    let rt = runtime();
    let _guard = rt.enter();
    let (mut store, _received) = empty_store();
    store.start().unwrap();
    let refused = store.add_group(Group::new("x", "y", true, "*/0 * * * * *"));
    assert_eq!(refused.unwrap_err(), StoreError::Scheduling(SchedulingError::InvalidCron));
    assert_eq!(store.len(), 0);
}

#[test]
fn disabled_group_may_carry_any_cron() {
    let rt = runtime();
    let _guard = rt.enter();
    let (mut store, _received) = empty_store();
    store.start().unwrap();
    store.add_group(Group::new("x", "y", false, "not-a-cron")).unwrap();
    assert_eq!(store.len(), 1);
    assert_eq!(store.group(0).unwrap().job_id, None);
    assert_eq!(store.job_count(), 0);
}

#[test]
fn expression_without_an_occurrence_ahead_never_fires() {
    let rt = runtime();
    let _guard = rt.enter();
    let (mut store, _received) = empty_store();
    store.start().unwrap();
    // the thirtieth of February
    let refused = store.add_group(Group::new("x", "y", true, "0 0 0 30 2 *"));
    assert_eq!(refused.unwrap_err(), StoreError::Scheduling(SchedulingError::NeverFires));
    // a year that has passed
    let refused = store.add_group(Group::new("x", "y", true, "0 0 0 1 1 * 2000"));
    assert_eq!(refused.unwrap_err(), StoreError::Scheduling(SchedulingError::NeverFires));
    assert_eq!(store.len(), 0);
    assert_eq!(store.job_count(), 0);
}

#[test]
fn ids_of_created_groups_are_unique_and_well_formed() {
    let (mut store, _received) = empty_store();
    for n in 0..40 {
        let listed = new_group(&mut store, Group::new("t", "d", n % 2 == 0, "0 0 9 * * *")).unwrap();
        assert_eq!(listed.len(), n + 1);
    }
    let listed = get_groups(&store);
    for (i, a) in listed.iter().enumerate() {
        assert!(is_generated_id(&a.id));
        for b in listed.iter().skip(i + 1) {
            assert_ne!(a.id, b.id);
        }
    }
}

#[test]
fn add_group_ignores_the_id_and_handle_it_is_given() {
    let (mut store, _received) = empty_store();
    let mut group = Group::new("t", "d", true, "0 0 9 * * *");
    group.id = "mine".to_string();
    group.job_id = Some(99);
    store.add_group(group).unwrap();
    let stored = store.group(0).unwrap();
    assert!(is_generated_id(&stored.id));
    assert_eq!(stored.job_id, None);
}

#[test]
fn insert_group_keeps_the_id_and_refuses_a_taken_one() {
    let (mut store, _received) = empty_store();
    let mut first = Group::new("first", "", false, "");
    first.id = "abcdefg".to_string();
    store.insert_group(first).unwrap();
    let mut second = Group::new("second", "", false, "");
    second.id = "abcdefg".to_string();
    assert_eq!(store.insert_group(second).unwrap_err(), StoreError::DuplicateId);
    assert_eq!(store.len(), 1);
    assert_eq!(store.group(0).unwrap().title, "first");
    assert_eq!(store.group(0).unwrap().id, "abcdefg");
}

#[test]
fn find_and_id_in_use() {
    let records = vec![
        record("aaaaaaa", "one", "@daily", false),
        record("bbbbbbb", "two", "@daily", false),
    ];
    let (sink, _received) = channel::<Notice>();
    let store = Instance::from_records(&records, TAG.to_string(), sink).unwrap();
    assert_eq!(store.find("aaaaaaa"), Some(0));
    assert_eq!(store.find("bbbbbbb"), Some(1));
    assert_eq!(store.find("ccccccc"), None);
    assert!(store.id_in_use("bbbbbbb"));
    assert!(!store.id_in_use("bbbbbb"));
}

#[test]
fn first_unused_id_takes_the_first_candidate_that_is_free() {
    let records = vec![
        record("aaaaaaa", "one", "@daily", false),
        record("bbbbbbb", "two", "@daily", false),
    ];
    let (sink, _received) = channel::<Notice>();
    let store = Instance::from_records(&records, TAG.to_string(), sink).unwrap();
    let candidates = vec![
        "bbbbbbb".to_string(),
        "aaaaaaa".to_string(),
        "ccccccc".to_string(),
        "ddddddd".to_string(),
    ];
    assert_eq!(store.first_unused_id(&candidates).unwrap(), "ccccccc");
}

#[test]
fn id_generation_gives_up_after_a_hundred_collisions() {
    let records = vec![record("aaaaaaa", "one", "@daily", false)];
    let (sink, _received) = channel::<Notice>();
    let store = Instance::from_records(&records, TAG.to_string(), sink).unwrap();
    let mut candidates: Vec<String> = Vec::new();
    for _ in 0..100 {
        candidates.push("aaaaaaa".to_string());
    }
    assert_eq!(store.first_unused_id(&candidates).unwrap_err(), StoreError::IdGenerationExhausted);
    // the hundred-and-first candidate is never looked at
    candidates.push("bbbbbbb".to_string());
    assert_eq!(store.first_unused_id(&candidates).unwrap_err(), StoreError::IdGenerationExhausted);
    // one earlier and it is taken
    candidates[99] = "ccccccc".to_string();
    assert_eq!(store.first_unused_id(&candidates).unwrap(), "ccccccc");
    assert_eq!(store.first_unused_id(&Vec::new()).unwrap_err(), StoreError::IdGenerationExhausted);
}

#[test]
fn generate_id_avoids_the_ids_in_use() {
    let records = vec![record("aaaaaaa", "one", "@daily", false)];
    let (sink, _received) = channel::<Notice>();
    let store = Instance::from_records(&records, TAG.to_string(), sink).unwrap();
    for _ in 0..50 {
        let id = store.generate_id().unwrap();
        assert!(is_generated_id(&id));
        assert_ne!(id, "aaaaaaa");
    }
}

#[test]
fn records_with_a_shared_id_are_refused() {
    let records = vec![
        record("aaaaaaa", "one", "@daily", false),
        record("bbbbbbb", "two", "@daily", false),
        record("aaaaaaa", "three", "@daily", false),
    ];
    let (sink, _received) = channel::<Notice>();
    let refused = Instance::from_records(&records, TAG.to_string(), sink);
    assert_eq!(refused.err(), Some(StoreError::DuplicateId));
}

#[test]
fn records_round_trip_through_a_store() {
    let mut records = vec![
        record("aaaaaaa", "one", "0 0 9 * * *", true),
        record("bbbbbbb", "two", "not-a-cron", true),
        record("ccccccc", "three", "@daily", false),
    ];
    records[0].next_date = Some(1_700_000_000);
    let (sink, _received) = channel::<Notice>();
    let mut store = Instance::from_records(&records, TAG.to_string(), sink).unwrap();
    assert_eq!(get_groups(&store), records);

    let rt = runtime();
    let _guard = rt.enter();
    store.start().unwrap();
    assert!(store.group(0).unwrap().job_id.is_some());
    assert_eq!(get_groups(&store), records);

    let (sink, _received) = channel::<Notice>();
    let reloaded = Instance::from_records(&get_groups(&store), TAG.to_string(), sink).unwrap();
    assert_eq!(get_groups(&reloaded), records);
    assert_eq!(reloaded.group(0).unwrap().job_id, None);
}

#[test]
fn start_schedules_the_valid_groups_and_reports_the_invalid_one() {
    let rt = runtime();
    let _guard = rt.enter();
    let records = vec![
        record("aaaaaaa", "one", "0 0 9 * * *", true),
        record("bbbbbbb", "two", "not-a-cron", true),
        record("ccccccc", "three", "@daily", true),
        record("ddddddd", "four", "0 30 18 * * Mon-Fri", true),
    ];
    let (sink, _received) = channel::<Notice>();
    let mut store = Instance::from_records(&records, TAG.to_string(), sink).unwrap();
    let failures = store.start().unwrap();
    assert_eq!(failures.len(), 1);
    assert_eq!(failures[0].index, 1);
    assert_eq!(failures[0].id, "bbbbbbb");
    assert_eq!(failures[0].reason, SchedulingError::InvalidCron);
    assert!(store.is_running());
    assert_eq!(store.job_count(), 3);
    assert_eq!(store.group(1).unwrap().job_id, None);
    let mut handles: Vec<u64> = Vec::new();
    for i in [0usize, 2, 3] {
        let handle = store.group(i).unwrap().job_id.unwrap();
        assert!(store.has_job(handle));
        assert!(!handles.contains(&handle));
        handles.push(handle);
    }
}

#[test]
fn start_reports_every_group_that_fails_in_order() {
    let rt = runtime();
    let _guard = rt.enter();
    let records = vec![
        record("aaaaaaa", "one", "nope", true),
        record("bbbbbbb", "two", "0 0 0 30 2 *", true),
        record("ccccccc", "three", "@daily", true),
        record("ddddddd", "four", "*/0 * * * * *", true),
        record("eeeeeee", "five", "nope", false),
    ];
    let (sink, _received) = channel::<Notice>();
    let mut store = Instance::from_records(&records, TAG.to_string(), sink).unwrap();
    let failures = store.start().unwrap();
    assert_eq!(failures.len(), 3);
    assert_eq!((failures[0].index, failures[0].reason), (0, SchedulingError::InvalidCron));
    assert_eq!((failures[1].index, failures[1].reason), (1, SchedulingError::NeverFires));
    assert_eq!((failures[2].index, failures[2].reason), (3, SchedulingError::InvalidCron));
    assert_eq!(failures[1].id, "bbbbbbb");
    assert_eq!(store.job_count(), 1);
    assert!(store.group(2).unwrap().job_id.is_some());
}

#[test]
fn start_with_a_launched_registry_schedules_and_reports() {
    let rt = runtime();
    let _guard = rt.enter();
    let records = vec![
        record("aaaaaaa", "one", "0 0 9 * * *", true),
        record("bbbbbbb", "two", "not-a-cron", true),
        record("ccccccc", "three", "0 30 8 * * *", true),
        record("ddddddd", "four", "0 0 9 * * *", false),
    ];
    let (sink, _received) = channel::<Notice>();
    let mut store = Instance::from_records(&records, TAG.to_string(), sink).unwrap();
    let failures = store.start_with(JobRegistry::launch().unwrap());
    assert!(store.is_running());
    assert_eq!(failures.len(), 1);
    assert_eq!(failures[0].index, 1);
    assert_eq!(failures[0].id, "bbbbbbb");
    assert_eq!(failures[0].reason, SchedulingError::InvalidCron);
    let first = store.group(0).unwrap().job_id.unwrap();
    let third = store.group(2).unwrap().job_id.unwrap();
    assert_ne!(first, third);
    assert!(store.has_job(first));
    assert!(store.has_job(third));
    assert_eq!(store.group(1).unwrap().job_id, None);
    assert_eq!(store.group(3).unwrap().job_id, None);
    assert_eq!(store.job_count(), 2);
    assert_eq!(get_groups(&store), records);
}

#[test]
fn second_start_changes_nothing() {
    let rt = runtime();
    let _guard = rt.enter();
    let records = vec![
        record("aaaaaaa", "one", "0 0 9 * * *", true),
        record("bbbbbbb", "two", "not-a-cron", true),
    ];
    let (sink, _received) = channel::<Notice>();
    let mut store = Instance::from_records(&records, TAG.to_string(), sink).unwrap();
    assert_eq!(store.start().unwrap().len(), 1);
    let handle = store.group(0).unwrap().job_id;
    assert!(store.start().unwrap().is_empty());
    assert_eq!(store.group(0).unwrap().job_id, handle);
    assert_eq!(store.job_count(), 1);
}

#[test]
fn delete_removes_the_group_and_its_job() {
    let rt = runtime();
    let _guard = rt.enter();
    let records = vec![
        record("aaaaaaa", "one", "0 0 9 * * *", true),
        record("bbbbbbb", "two", "@daily", true),
        record("ccccccc", "three", "@hourly", true),
    ];
    let (sink, _received) = channel::<Notice>();
    let mut store = Instance::from_records(&records, TAG.to_string(), sink).unwrap();
    store.start().unwrap();
    let gone = store.group(1).unwrap().job_id.unwrap();
    let kept_first = store.group(0).unwrap().job_id.unwrap();
    let kept_last = store.group(2).unwrap().job_id.unwrap();

    let listed = delete_group(&mut store, 1).unwrap();
    assert_eq!(listed, vec![records[0].clone(), records[2].clone()]);
    assert!(!store.has_job(gone));
    assert!(store.has_job(kept_first));
    assert!(store.has_job(kept_last));
    assert_eq!(store.job_count(), 2);
    assert_eq!(store.group(1).unwrap().job_id, Some(kept_last));
}

#[test]
fn delete_out_of_range_is_an_error() {
    let records = vec![record("aaaaaaa", "one", "0 0 9 * * *", true)];
    let (sink, _received) = channel::<Notice>();
    let mut store = Instance::from_records(&records, TAG.to_string(), sink).unwrap();
    assert_eq!(delete_group(&mut store, 1).unwrap_err(), StoreError::IndexOutOfRange);
    assert_eq!(store.delete_group(usize::MAX).unwrap_err(), StoreError::IndexOutOfRange);
    assert_eq!(store.len(), 1);
}

#[test]
fn delete_without_a_registry_just_removes() {
    let records = vec![
        record("aaaaaaa", "one", "0 0 9 * * *", true),
        record("bbbbbbb", "two", "@daily", true),
    ];
    let (sink, _received) = channel::<Notice>();
    let mut store = Instance::from_records(&records, TAG.to_string(), sink).unwrap();
    let listed = delete_group(&mut store, 0).unwrap();
    assert_eq!(listed, vec![records[1].clone()]);
    assert!(!store.is_running());
}

#[test]
fn remove_by_id_removes_the_group_and_its_job() {
    let rt = runtime();
    let _guard = rt.enter();
    let records = vec![
        record("aaaaaaa", "one", "0 0 9 * * *", true),
        record("bbbbbbb", "two", "@daily", true),
    ];
    let (sink, _received) = channel::<Notice>();
    let mut store = Instance::from_records(&records, TAG.to_string(), sink).unwrap();
    store.start().unwrap();
    let gone = store.group(1).unwrap().job_id.unwrap();
    assert_eq!(store.remove_group("ccccccc").unwrap_err(), StoreError::NotFound);
    assert_eq!(store.remove_group("bbbbbbb").unwrap(), 1);
    assert_eq!(get_groups(&store), vec![records[0].clone()]);
    assert!(!store.has_job(gone));
    assert_eq!(store.job_count(), 1);
    assert_eq!(store.remove_group("bbbbbbb").unwrap_err(), StoreError::NotFound);
}

#[test]
fn update_of_an_unknown_id_is_not_found() {
    let (mut store, _received) = empty_store();
    let refused = update_group(&mut store, "aaaaaaa", fields("t", "d", true, "@daily"));
    assert_eq!(refused.unwrap_err(), StoreError::NotFound);
}

#[test]
fn update_of_the_description_keeps_the_job() {
    let rt = runtime();
    let _guard = rt.enter();
    let records = vec![record("aaaaaaa", "one", "0 0 9 * * *", true)];
    let (sink, _received) = channel::<Notice>();
    let mut store = Instance::from_records(&records, TAG.to_string(), sink).unwrap();
    store.start().unwrap();
    let handle = store.group(0).unwrap().job_id.unwrap();

    let position = store.update_group("aaaaaaa", fields("one!", "changed", true, "0 0 9 * * *")).unwrap();
    assert_eq!(position, 0);
    let group = store.group(0).unwrap();
    assert_eq!(group.title, "one!");
    assert_eq!(group.description, "changed");
    assert_eq!(group.id, "aaaaaaa");
    assert_eq!(group.job_id, Some(handle));
    assert!(store.has_job(handle));
    assert_eq!(store.job_count(), 1);
}

#[test]
fn update_of_the_cron_makes_a_new_job_and_cancels_the_old() {
    let rt = runtime();
    let _guard = rt.enter();
    let records = vec![
        record("aaaaaaa", "one", "0 0 9 * * *", true),
        record("bbbbbbb", "two", "@daily", true),
    ];
    let (sink, _received) = channel::<Notice>();
    let mut store = Instance::from_records(&records, TAG.to_string(), sink).unwrap();
    store.start().unwrap();
    let old = store.group(1).unwrap().job_id.unwrap();
    let other = store.group(0).unwrap().job_id.unwrap();

    let listed = update_group(&mut store, "bbbbbbb", fields("two", "about two", true, "0 15 10 * * *")).unwrap();
    assert_eq!(listed[1].cron, "0 15 10 * * *");
    assert_eq!(listed[1].id, "bbbbbbb");
    let new = store.group(1).unwrap().job_id.unwrap();
    assert_ne!(new, old);
    assert!(!store.has_job(old));
    assert!(store.has_job(new));
    assert!(store.has_job(other));
    assert_eq!(store.job_count(), 2);
}

#[test]
fn update_to_an_invalid_cron_is_refused_and_keeps_the_old_job() {
    let rt = runtime();
    let _guard = rt.enter();
    let records = vec![record("aaaaaaa", "one", "0 0 9 * * *", true)];
    let (sink, _received) = channel::<Notice>();
    let mut store = Instance::from_records(&records, TAG.to_string(), sink).unwrap();
    store.start().unwrap();
    let handle = store.group(0).unwrap().job_id.unwrap();

    let refused = update_group(&mut store, "aaaaaaa", fields("new", "new", true, "not-a-cron"));
    assert_eq!(refused.unwrap_err(), StoreError::Scheduling(SchedulingError::InvalidCron));
    let refused = update_group(&mut store, "aaaaaaa", fields("new", "new", true, "0 0 0 30 2 *"));
    assert_eq!(refused.unwrap_err(), StoreError::Scheduling(SchedulingError::NeverFires));
    assert_eq!(get_groups(&store), records);
    assert_eq!(store.group(0).unwrap().job_id, Some(handle));
    assert!(store.has_job(handle));
    assert_eq!(store.job_count(), 1);
}

#[test]
fn update_that_enables_a_group_schedules_it() {
    let rt = runtime();
    let _guard = rt.enter();
    let records = vec![record("aaaaaaa", "one", "0 0 9 * * *", false)];
    let (sink, _received) = channel::<Notice>();
    let mut store = Instance::from_records(&records, TAG.to_string(), sink).unwrap();
    store.start().unwrap();
    assert_eq!(store.job_count(), 0);
    store.update_group("aaaaaaa", fields("one", "about one", true, "0 0 9 * * *")).unwrap();
    let handle = store.group(0).unwrap().job_id.unwrap();
    assert!(store.has_job(handle));
}

#[test]
fn update_without_a_registry_checks_the_cron_but_schedules_nothing() {
    let records = vec![record("aaaaaaa", "one", "0 0 9 * * *", true)];
    let (sink, _received) = channel::<Notice>();
    let mut store = Instance::from_records(&records, TAG.to_string(), sink).unwrap();
    let refused = store.update_group("aaaaaaa", fields("one", "d", true, "not-a-cron"));
    assert_eq!(refused.unwrap_err(), StoreError::Scheduling(SchedulingError::InvalidCron));
    store.update_group("aaaaaaa", fields("one", "d", true, "@hourly")).unwrap();
    let group = store.group(0).unwrap();
    assert_eq!(group.cron, "@hourly");
    assert_eq!(group.job_id, None);
}

#[test]
fn error_messages_name_the_trouble() {
    assert!(StoreError::Scheduling(SchedulingError::InvalidCron).message().starts_with("Invalid schedule"));
    assert!(StoreError::IdGenerationExhausted.message().starts_with("Error generating ID"));
    assert_ne!(StoreError::NotFound.message(), StoreError::IndexOutOfRange.message());
}
