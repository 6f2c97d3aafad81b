//! The scheduler's bookkeeping: an identifier counter and a configured
//! ceiling on concurrent machines. Spawning a machine onto its own thread
//! is the runtime's work; the scheduler itself holds only this state.
use vstd::prelude::*;

verus! {

/// The scheduler: the next identifier to hand out and the configured
/// maximum number of concurrently scheduled machines.
#[derive(Debug, Clone, Copy)]
pub struct Scheduler {
    pub next_pid: u32,
    pub max_pid: u32,
}

impl Scheduler {
    /// A fresh scheduler: identifiers start at zero, with the default
    /// ceiling of fifty thousand machines.
    pub fn new() -> (r: Scheduler)
        ensures
            r.next_pid == 0,
            r.max_pid == 50000,
    {
        Scheduler { next_pid: 0, max_pid: 50000 }
    }
}

impl Default for Scheduler {
    /// The default scheduler is the fresh one.
    fn default() -> (r: Scheduler)
        ensures
            r.next_pid == 0,
            r.max_pid == 50000,
    {
        Scheduler::new()
    }
}

} // verus!
