//! Instrument categories.
use vstd::prelude::*;

verus! {

/// Category of an instrument.
#[derive(Debug, Clone, Copy, PartialEq, Eq, Structural)]
pub enum InstrumentCategory {
    /// Guitars.
    Guitar,
    /// Bass guitars.
    Bass,
    /// Pianos.
    Piano,
    /// Organs.
    Organ,
    /// Strings.
    Strings,
    /// Brass.
    Brass,
    /// Woodwinds.
    Woodwinds,
    /// Percussion.
    Percussion,
    /// Synthesizers.
    Synth,
    /// Choirs.
    Choir,
    /// Sound effects.
    SoundFx,
    /// Anything else.
    Other,
}

} // verus!
