//! Modes and stages of the dynamics processors' envelopes.
use vstd::prelude::*;

verus! {

/// How an envelope follower measures level.
#[derive(Debug, Clone, Copy, PartialEq, Eq, Structural)]
pub enum EnvelopeMode {
    /// Peak level.
    Peak,
    /// RMS level.
    Rms,
    /// True peak, between samples.
    TruePeak,
}

/// Stage of an ADSR envelope.
#[derive(Debug, Clone, Copy, PartialEq, Eq, Structural)]
pub enum AdsrStage {
    /// Not running.
    Idle,
    /// Rising.
    Attack,
    /// Falling to the sustain level.
    Decay,
    /// Holding.
    Sustain,
    /// Fading out.
    Release,
}

} // verus!
