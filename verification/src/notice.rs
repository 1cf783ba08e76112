//! What a job sends when it fires, and the channel it sends it on.

use crate::switch::JobSwitch;
use std::sync::mpsc::Sender;
use vstd::prelude::*;

verus! {

/// `std::sync::mpsc::Sender`: the sending half of a channel.
#[verifier::external_type_specification]
#[verifier::external_body]
#[verifier::reject_recursive_types(T)]
pub struct ExSender<T>(Sender<T>);

/// One notification to show: the application it comes from, a title, a body.
#[derive(Debug)]
pub struct Notice {
    pub tag: String,
    pub title: String,
    pub body: String,
}

/// A notice as three texts.
pub struct NoticeView {
    pub tag: Seq<char>,
    pub title: Seq<char>,
    pub body: Seq<char>,
}

impl View for Notice {
    type V = NoticeView;

    open spec fn view(&self) -> NoticeView {
        NoticeView { tag: self.tag@, title: self.title@, body: self.body@ }
    }
}

/// Calls `std::sync::mpsc::Sender::send` and says whether the channel took the
/// value. It does not when the receiver is gone, so nothing is promised.
#[verifier::external_body]
fn sender_send(sink: &Sender<Notice>, notice: Notice) -> (taken: bool) {
    sink.send(notice).is_ok()
}

impl Notice {
    /// A notice of the three texts.
    pub fn new(tag: &str, title: &str, body: &str) -> (notice: Notice)
        ensures
            notice@ == (NoticeView { tag: tag@, title: title@, body: body@ }),
    {
        Notice { tag: tag.to_owned(), title: title.to_owned(), body: body.to_owned() }
    }

    /// A second notice with the same texts.
    pub fn duplicate(&self) -> (copy: Notice)
        ensures
            copy@ == self@,
    {
        Notice { tag: self.tag.clone(), title: self.title.clone(), body: self.body.clone() }
    }

    /// Hands a copy of the notice to the sink. A sink that no longer listens
    /// is no error: the result only says whether the copy was taken.
    pub fn deliver(&self, sink: &Sender<Notice>) -> (taken: bool) {
        sender_send(sink, self.duplicate())
    }

    /// Hands a copy of the notice to the sink unless the switch was
    /// cancelled. This is what a job does each time it fires. What the
    /// switch reads is the moment's; `deliver_if` says what is made of it.
    pub fn deliver_unless(&self, switch: &JobSwitch, sink: &Sender<Notice>) -> (taken: bool) {
        self.deliver_if(switch.is_cancelled(), sink)
    }

    /// What a job sends once it has read its switch: a copy of the notice,
    /// or nothing if the job was cancelled.
    pub fn outgoing(&self, cancelled: bool) -> (copy: Option<Notice>)
        ensures
            match copy {
                Some(notice) => !cancelled && notice@ == self@,
                None => cancelled,
            },
    {
        if cancelled {
            None
        } else {
            Some(self.duplicate())
        }
    }

    /// What a job does once it has read its switch: it hands to the sink
    /// what `outgoing` gives. A cancelled job sends nothing and the result
    /// is `false`.
    pub fn deliver_if(&self, cancelled: bool, sink: &Sender<Notice>) -> (taken: bool)
        ensures
            cancelled ==> !taken,
    {
        match self.outgoing(cancelled) {
            Some(copy) => sender_send(sink, copy),
            None => false,
        }
    }
}

} // verus!
