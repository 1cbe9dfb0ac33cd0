//! Execution core of a real-time audio engine: a lock-free-style message
//! queue, a sample-accurate event scheduler, and an audio processing graph
//! that compiles into an immutable execution plan.
use vstd::prelude::*;

pub mod dsp;
pub mod error;
pub mod format;
pub mod graph;
pub mod hal;
pub mod queue;
pub mod schedule;
pub mod siren;
pub mod web;

verus! {

/// Version string of the library.
pub fn version() -> (r: &'static str)
    ensures
        r@ == "0.1.0"@,
{
    "0.1.0"
}

} // verus!
