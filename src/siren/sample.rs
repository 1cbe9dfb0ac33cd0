//! Sample references.
use vstd::prelude::*;

verus! {

/// Identifier of a loaded sample.
#[derive(Debug, Clone, Copy, PartialEq, Eq, Hash, Structural)]
pub struct SampleId(pub u32);

/// How a sample loops.
#[derive(Debug, Clone, Copy, PartialEq, Eq, Structural)]
pub enum LoopMode {
    /// No loop.
    NoLoop,
    /// Loop forward.
    Forward,
    /// Alternate forward and backward.
    PingPong,
    /// Loop backward.
    Backward,
}

impl Default for LoopMode {
    fn default() -> (r: LoopMode)
        ensures
            r == LoopMode::NoLoop,
    {
        LoopMode::NoLoop
    }
}

/// Reference to a sample file.
#[derive(Debug, Clone)]
pub struct SampleRef {
    /// Sample id.
    pub id: SampleId,
    /// File path.
    pub path: String,
    /// Whether the sample is loaded.
    pub loaded: bool,
}

impl SampleRef {
    /// Creates a reference to a sample that is not loaded yet.
    pub fn new(id: SampleId, path: &str) -> (r: Self)
        ensures
            r.id == id,
            r.path@ == path@,
            !r.loaded,
    {
        SampleRef { id, path: path.to_owned(), loaded: false }
    }
}

} // verus!
