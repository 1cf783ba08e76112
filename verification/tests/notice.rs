use reminders::notice::Notice;
use std::sync::mpsc::channel;

#[test]
fn notice_new_keeps_the_three_texts() {
    let notice = Notice::new("com.example.app", "Water plants", "The ferns first");
    assert_eq!(notice.tag, "com.example.app");
    assert_eq!(notice.title, "Water plants");
    assert_eq!(notice.body, "The ferns first");
}

#[test]
fn duplicate_has_the_same_texts() {
    let notice = Notice::new("tag", "title", "body");
    let copy = notice.duplicate();
    assert_eq!(copy.tag, "tag");
    assert_eq!(copy.title, "title");
    assert_eq!(copy.body, "body");
}

#[test]
fn deliver_sends_a_copy_to_the_sink() {
    let (sink, received) = channel::<Notice>();
    let notice = Notice::new("tag", "title", "body");
    assert!(notice.deliver(&sink));
    assert!(notice.deliver(&sink));
    let first = received.try_recv().unwrap();
    assert_eq!(first.tag, "tag");
    assert_eq!(first.title, "title");
    assert_eq!(first.body, "body");
    assert!(received.try_recv().is_ok());
    assert!(received.try_recv().is_err());
}

#[test]
fn deliver_to_a_sink_that_is_gone_is_no_error() {
    let (sink, received) = channel::<Notice>();
    drop(received);
    let notice = Notice::new("tag", "title", "body");
    assert!(!notice.deliver(&sink));
}

#[test]
fn a_cancelled_job_sends_nothing() {
    let (sink, received) = channel::<Notice>();
    let notice = Notice::new("tag", "title", "body");
    assert!(!notice.deliver_if(true, &sink));
    assert!(received.try_recv().is_err());
}

#[test]
fn a_job_that_is_not_cancelled_sends_its_notice() {
    let (sink, received) = channel::<Notice>();
    let notice = Notice::new("tag", "title", "body");
    assert!(notice.deliver_if(false, &sink));
    let got = received.try_recv().unwrap();
    assert_eq!(got.tag, "tag");
    assert_eq!(got.title, "title");
    assert_eq!(got.body, "body");
    assert!(received.try_recv().is_err());
}

#[test]
fn outgoing_is_a_copy_or_nothing() {
    let notice = Notice::new("tag", "title", "body");
    assert!(notice.outgoing(true).is_none());
    let copy = notice.outgoing(false).unwrap();
    assert_eq!(copy.tag, "tag");
    assert_eq!(copy.title, "title");
    assert_eq!(copy.body, "body");
}
