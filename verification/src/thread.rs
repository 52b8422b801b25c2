//! The flag that tells the workers to stop.
use std::sync::atomic::{AtomicBool, Ordering};
use std::sync::Arc;
use vstd::prelude::*;

verus! {

/// A flag shared by all clones: once one of them is shut down, all of them report it.
#[derive(Clone)]
pub struct ShutdownSignal {
    flag: Arc<AtomicBool>,
}

impl ShutdownSignal {
    /// A new flag, not set. The flag lives in an `AtomicBool`, of whose value vstd states
    /// nothing, so the contract cannot say that it starts unset.
    pub fn new() -> ShutdownSignal {
        ShutdownSignal { flag: Arc::new(AtomicBool::new(false)) }
    }

    /// Sets the flag, for this signal and all its clones.
    pub fn shutdown(&self) {
        self.flag.store(true, Ordering::Release);
    }

    /// Whether the flag has been set. Other threads set it, so what this returns is read from
    /// the shared flag at the time of the call; any `bool` may come back, and the contract
    /// states none.
    pub fn is_shutdown(&self) -> bool {
        self.flag.load(Ordering::Acquire)
    }
}

} // verus!
