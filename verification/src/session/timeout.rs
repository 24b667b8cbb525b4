//! How long a session waits.

use vstd::prelude::*;

use crate::time::Duration;

verus! {

/// The two deadlines of a session.
#[derive(Debug, Clone, Copy, PartialEq, Eq)]
pub struct TimeoutConfig {
    /// For one call of the model.
    pub thinking_timeout: Duration,
    /// For one batch of tool calls that the round waits for.
    pub awaiting_calls_timeout: Duration,
}

impl TimeoutConfig {
    /// The deadlines are spans of time.
    pub open spec fn wf(self) -> bool {
        self.thinking_timeout.wf() && self.awaiting_calls_timeout.wf()
    }

    /// Deadlines that come at once.
    pub fn test_fast() -> (r: TimeoutConfig)
        ensures
            r.wf(),
            r.thinking_timeout.total() == 50_000_000,
            r.awaiting_calls_timeout.total() == 50_000_000,
    {
        TimeoutConfig {
            thinking_timeout: Duration::from_millis(50),
            awaiting_calls_timeout: Duration::from_millis(50),
        }
    }
}

impl Default for TimeoutConfig {
    fn default() -> (r: Self)
        ensures
            r.wf(),
            r.thinking_timeout.total() == 30_000_000_000,
            r.awaiting_calls_timeout.total() == 60_000_000_000,
    {
        TimeoutConfig {
            thinking_timeout: Duration::from_secs(30),
            awaiting_calls_timeout: Duration::from_secs(60),
        }
    }
}

} // verus!
