//! Stream state and callback statistics.
use vstd::prelude::*;

verus! {

/// State of an audio stream.
#[derive(Debug, Clone, Copy, PartialEq, Eq, Structural)]
pub enum StreamState {
    /// Not running.
    Stopped,
    /// Running.
    Running,
    /// Paused.
    Paused,
    /// Stopped by an error.
    Error,
}

impl StreamState {
    /// Returns whether the stream is running.
    pub fn is_active(&self) -> (r: bool)
        ensures
            r == (*self == StreamState::Running),
    {
        match self {
            StreamState::Running => true,
            _ => false,
        }
    }

    /// The name of each state.
    pub open spec fn spec_name(&self) -> Seq<char> {
        match self {
            StreamState::Stopped => "stopped"@,
            StreamState::Running => "running"@,
            StreamState::Paused => "paused"@,
            StreamState::Error => "error"@,
        }
    }

    /// Returns the name of the state.
    pub fn as_str(&self) -> (r: &'static str)
        ensures
            r@ == self.spec_name(),
    {
        match self {
            StreamState::Stopped => "stopped",
            StreamState::Running => "running",
            StreamState::Paused => "paused",
            StreamState::Error => "error",
        }
    }
}

/// Counters kept by a stream's callback.
#[derive(Debug, Clone)]
pub struct CallbackStats {
    /// Number of callbacks.
    pub callback_count: u64,
    /// Time spent in callbacks, in nanoseconds.
    pub total_time_ns: u64,
    /// Longest callback, in nanoseconds.
    pub max_time_ns: u64,
    /// Number of overruns.
    pub overruns: u64,
    /// Number of underruns.
    pub underruns: u64,
}

impl Default for CallbackStats {
    fn default() -> (r: CallbackStats)
        ensures
            r.callback_count == 0,
            r.total_time_ns == 0,
            r.max_time_ns == 0,
            r.overruns == 0,
            r.underruns == 0,
    {
        CallbackStats {
            callback_count: 0,
            total_time_ns: 0,
            max_time_ns: 0,
            overruns: 0,
            underruns: 0,
        }
    }
}

} // verus!
