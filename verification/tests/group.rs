use reminders::group::{Group, GroupRecord, Repeat};

fn record(id: &str, cron: &str, enabled: bool) -> GroupRecord {
    GroupRecord {
        title: "Stretch".to_string(),
        description: "Stand up".to_string(),
        enabled,
        id: id.to_string(),
        cron: cron.to_string(),
        next_date: Some(1_700_000_000),
    }
}

#[test]
fn new_group_has_no_id_and_no_job() {
    let group = Group::new("Water plants", "The ferns first", true, "0 0 9 * * *");
    assert_eq!(group.title, "Water plants");
    assert_eq!(group.description, "The ferns first");
    assert!(group.enabled);
    assert_eq!(group.id, "");
    assert_eq!(group.job_id, None);
    assert_eq!(group.cron, "0 0 9 * * *");
    assert_eq!(group.next_date, None);
}

#[test]
fn record_leaves_out_the_job_handle() {
    let mut group = Group::from_record(&record("abcdefg", "0 0 9 * * *", true));
    group.job_id = Some(42);
    assert_eq!(group.to_record(), record("abcdefg", "0 0 9 * * *", true));
}

#[test]
fn group_of_a_record_has_no_job() {
    let group = Group::from_record(&record("abcdefg", "@daily", false));
    assert_eq!(group.job_id, None);
    assert_eq!(group.id, "abcdefg");
    assert_eq!(group.cron, "@daily");
    assert!(!group.enabled);
    assert_eq!(group.next_date, Some(1_700_000_000));
}

#[test]
fn duplicate_keeps_every_field() {
    let mut group = Group::from_record(&record("abcdefg", "@daily", true));
    group.job_id = Some(7);
    let copy = group.duplicate();
    assert_eq!(copy.job_id, Some(7));
    assert_eq!(copy.to_record(), group.to_record());
}

#[test]
fn notice_of_a_group_carries_title_and_description() {
    let group = Group::from_record(&record("abcdefg", "@daily", true));
    let notice = group.notice("com.example.app");
    assert_eq!(notice.tag, "com.example.app");
    assert_eq!(notice.title, "Stretch");
    assert_eq!(notice.body, "Stand up");
}

#[test]
fn repeat_has_two_values() {
    assert_ne!(Repeat::Never, Repeat::Daily);
}
