//! Kinds of messages between a host page and the audio worklet.
use vstd::prelude::*;

verus! {

/// Kind of a message between a host page and the audio worklet.
#[derive(Debug, Clone, Copy, PartialEq, Eq, Structural)]
pub enum MessageType {
    /// Parameter change.
    Param,
    /// Note on.
    NoteOn,
    /// Note off.
    NoteOff,
    /// All notes off.
    AllNotesOff,
    /// Transport change.
    Transport,
    /// Level meter reading.
    Meter,
    /// Error report.
    Error,
}

} // verus!
