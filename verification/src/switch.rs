//! The switch of a job: a flag that the registry sets when it cancels the
//! job and that the job reads each time it fires.
//!
//! The scheduler takes a removal as a message to its background loop, so a
//! job may still fire between the removal and the loop's reading of it. A
//! job therefore asks its switch before it sends anything: once `cancel`
//! has returned, it sends nothing more.

use std::sync::atomic::AtomicBool;
use std::sync::atomic::Ordering;
use std::sync::Arc;
use vstd::prelude::*;

verus! {

/// A flag shared between the registry and one job.
pub struct JobSwitch {
    cancelled: Arc<AtomicBool>,
}

/// Calls `Arc::clone`, which makes a second pointer to the same allocation:
/// the result points to the flag that `flag` points to.
#[verifier::external_body]
fn arc_clone(flag: &Arc<AtomicBool>) -> (shared: Arc<AtomicBool>)
    ensures
        shared == *flag,
{
    Arc::clone(flag)
}

impl JobSwitch {
    /// A switch that is not cancelled.
    pub fn new() -> (switch: JobSwitch) {
        JobSwitch { cancelled: Arc::new(AtomicBool::new(false)) }
    }

    /// A second handle on the same switch.
    pub fn share(&self) -> (shared: JobSwitch)
        ensures
            shared == *self,
    {
        JobSwitch { cancelled: arc_clone(&self.cancelled) }
    }

    /// Cancels the switch, for every handle on it.
    pub fn cancel(&self) {
        self.cancelled.store(true, Ordering::SeqCst);
    }

    /// Whether the switch was cancelled.
    pub fn is_cancelled(&self) -> (cancelled: bool) {
        self.cancelled.load(Ordering::SeqCst)
    }
}

} // verus!
