//! Voice identity and state.
use vstd::prelude::*;

verus! {

/// Identifier of a playing voice.
#[derive(Debug, Clone, Copy, PartialEq, Eq, Hash, Structural)]
pub struct VoiceId(pub u32);

/// Envelope stage of a voice.
#[derive(Debug, Clone, Copy, PartialEq, Eq, Structural)]
pub enum VoiceState {
    /// Not playing.
    Idle,
    /// Rising.
    Attack,
    /// Falling to the sustain level.
    Decay,
    /// Holding.
    Sustain,
    /// Fading out.
    Release,
}

/// Which voice gives way when all are busy.
#[derive(Debug, Clone, Copy, PartialEq, Eq, Structural)]
pub enum VoiceStealingMode {
    /// No voice gives way.
    NoStealing,
    /// The oldest voice.
    Oldest,
    /// The quietest voice.
    Quietest,
    /// A voice playing the same note.
    SameNote,
}

impl Default for VoiceStealingMode {
    fn default() -> (r: VoiceStealingMode)
        ensures
            r == VoiceStealingMode::Oldest,
    {
        VoiceStealingMode::Oldest
    }
}

} // verus!
