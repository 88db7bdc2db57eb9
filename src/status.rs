use vstd::prelude::*;

verus! {

/// Outcome of one execution of a probe or a story.
#[derive(Debug, Clone, Copy, PartialEq, Eq, Structural)]
pub enum MonitorStatus {
    Success,
    Error,
}

impl MonitorStatus {
    /// Gauge value of the status: `Success` is 0, `Error` is 1.
    pub open spec fn gauge(self) -> u64 {
        match self {
            MonitorStatus::Success => 0,
            MonitorStatus::Error => 1,
        }
    }

    pub fn as_u64(&self) -> (r: u64)
        ensures
            r == self.gauge(),
    {
        match self {
            MonitorStatus::Success => 0,
            MonitorStatus::Error => 1,
        }
    }
}

} // verus!
