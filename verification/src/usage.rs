//! The time that a plugin spends on a call.
use vstd::prelude::*;

verus! {

/// Keeps the time of the last call of a plugin.
pub struct UsageMeter {
    pub last_exec_ns: u64,
}

impl UsageMeter {
    /// A meter before any call.
    pub fn new() -> (res: UsageMeter)
        ensures
            res.last_exec_ns == 0,
    {
        UsageMeter { last_exec_ns: 0 }
    }

    /// Takes the times at which a call began and ended. A clock that went
    /// backwards in between counts as no time.
    pub fn record(&mut self, start_ns: u64, end_ns: u64)
        ensures
            final(self).last_exec_ns == (if start_ns < end_ns {
                end_ns - start_ns
            } else {
                0
            }),
    {
        self.last_exec_ns = end_ns.saturating_sub(start_ns);
    }

    /// The nanoseconds of the last call.
    pub fn report_usage(&self) -> (res: u64)
        ensures
            res == self.last_exec_ns,
    {
        self.last_exec_ns
    }
}

} // verus!
