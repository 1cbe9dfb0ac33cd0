//! Guitar pickups, amplifiers and cabinets.
use vstd::prelude::*;

verus! {

/// Pickup position on the guitar.
#[derive(Debug, Clone, Copy, PartialEq, Eq, Structural)]
pub enum PickupPosition {
    /// Near the neck: warmer, rounder tone.
    Neck,
    /// Between neck and bridge.
    Middle,
    /// Near the bridge: brighter, more attack.
    Bridge,
}

/// Kind of pickup.
#[derive(Debug, Clone, Copy, PartialEq, Eq, Structural)]
pub enum PickupType {
    /// Single coil: brighter, can hum.
    SingleCoil,
    /// Humbucker: warmer, no hum.
    Humbucker,
    /// P-90 single coil.
    P90,
    /// Active pickup.
    Active,
}

impl Default for PickupType {
    fn default() -> (r: PickupType)
        ensures
            r == PickupType::Humbucker,
    {
        PickupType::Humbucker
    }
}

/// Kind of amplifier.
#[derive(Debug, Clone, Copy, PartialEq, Eq, Structural)]
pub enum AmpType {
    /// Clean amplifier.
    Clean,
    /// Crunch amplifier.
    Crunch,
    /// High-gain amplifier.
    HighGain,
    /// Modern amplifier.
    Modern,
    /// Acoustic amplifier.
    Acoustic,
    /// Bass amplifier.
    Bass,
}

impl Default for AmpType {
    fn default() -> (r: AmpType)
        ensures
            r == AmpType::Crunch,
    {
        AmpType::Crunch
    }
}

/// Speaker cabinet.
#[derive(Debug, Clone)]
pub struct CabinetModel {
    /// Cabinet name.
    pub name: String,
    /// Number of speakers.
    pub speakers: u8,
    /// Speaker size in inches.
    pub speaker_size: u8,
    /// Path of an impulse response, if one is used.
    pub ir_path: Option<String>,
}

} // verus!
