//! Drum pieces, articulations, microphone positions and the General MIDI
//! drum map.
use vstd::prelude::*;

verus! {

/// Kind of drum or percussion piece.
#[derive(Debug, Clone, Copy, PartialEq, Eq, Hash, Structural)]
pub enum DrumPieceType {
    /// Bass drum.
    Kick,
    /// Snare drum.
    Snare,
    /// Hi-hat.
    HiHat,
    /// Rack tom.
    Tom,
    /// Floor tom.
    FloorTom,
    /// Crash cymbal.
    Crash,
    /// Ride cymbal.
    Ride,
    /// China cymbal.
    China,
    /// Splash cymbal.
    Splash,
    /// Cowbell.
    Cowbell,
    /// Tambourine.
    Tambourine,
    /// Hand clap.
    Clap,
    /// Rim click.
    RimClick,
    /// Cross stick.
    CrossStick,
    /// Anything else.
    Other,
}

/// Way a drum piece is struck.
#[derive(Debug, Clone, Copy, PartialEq, Eq, Hash, Structural)]
pub enum DrumArticulation {
    /// Center of the head.
    Center,
    /// Edge of the head.
    Edge,
    /// Head and rim at once.
    RimShot,
    /// Stick laid across the rim.
    CrossStick,
    /// Rim only.
    RimOnly,
    /// One grace note before the stroke.
    Flam,
    /// Two grace notes before the stroke.
    Drag,
    /// Buzz roll.
    BuzzRoll,
    /// Very soft stroke (a ghost note).
    GhostNote,
    /// Muted stroke.
    DeadStroke,
    /// Hi-hat closed.
    Closed,
    /// Hi-hat half open.
    HalfOpen,
    /// Hi-hat open.
    Open,
    /// Hi-hat closed by the pedal.
    PedalClose,
    /// Hi-hat splashed by the foot.
    FootSplash,
    /// Cymbal bell.
    Bell,
    /// Cymbal bow.
    Bow,
    /// Cymbal crash.
    CrashHit,
    /// Cymbal choked after the hit.
    Choke,
    /// Muted cymbal.
    Muted,
    /// Scraped cymbal.
    Scrape,
}

impl Default for DrumArticulation {
    fn default() -> (r: DrumArticulation)
        ensures
            r == DrumArticulation::Center,
    {
        DrumArticulation::Center
    }
}

impl DrumArticulation {
    /// Returns whether the articulation belongs to the hi-hat.
    pub fn is_hihat_specific(&self) -> (r: bool)
        ensures
            r == (*self == DrumArticulation::Closed || *self == DrumArticulation::HalfOpen || *self
                == DrumArticulation::Open || *self == DrumArticulation::PedalClose || *self
                == DrumArticulation::FootSplash),
    {
        match self {
            DrumArticulation::Closed | DrumArticulation::HalfOpen | DrumArticulation::Open
            | DrumArticulation::PedalClose | DrumArticulation::FootSplash => true,
            _ => false,
        }
    }

    /// Returns whether the articulation belongs to cymbals.
    pub fn is_cymbal_specific(&self) -> (r: bool)
        ensures
            r == (*self == DrumArticulation::Bell || *self == DrumArticulation::Bow || *self
                == DrumArticulation::CrashHit || *self == DrumArticulation::Choke || *self
                == DrumArticulation::Scrape),
    {
        match self {
            DrumArticulation::Bell | DrumArticulation::Bow | DrumArticulation::CrashHit
            | DrumArticulation::Choke | DrumArticulation::Scrape => true,
            _ => false,
        }
    }

    /// Returns whether grace notes precede the stroke.
    pub fn has_grace_note(&self) -> (r: bool)
        ensures
            r == (*self == DrumArticulation::Flam || *self == DrumArticulation::Drag),
    {
        match self {
            DrumArticulation::Flam | DrumArticulation::Drag => true,
            _ => false,
        }
    }

    /// Returns the number of grace notes before the stroke.
    pub fn grace_note_count(&self) -> (r: u8)
        ensures
            r == if *self == DrumArticulation::Flam {
                1u8
            } else if *self == DrumArticulation::Drag {
                2u8
            } else {
                0u8
            },
    {
        match self {
            DrumArticulation::Flam => 1,
            DrumArticulation::Drag => 2,
            _ => 0,
        }
    }
}

/// Microphone position of a recorded layer.
#[derive(Debug, Clone, Copy, PartialEq, Eq, Hash, Structural)]
pub enum MicPosition {
    /// Close to the piece.
    Close,
    /// Above the kit.
    Overhead,
    /// In the room.
    Room,
    /// Under the snare or tom.
    Bottom,
    /// Over the snare or tom.
    Top,
}

impl DrumPieceType {
    /// The General MIDI note of each piece type.
    pub open spec fn spec_gm_note(self) -> u8 {
        match self {
            DrumPieceType::Kick => 36,
            DrumPieceType::Snare => 38,
            DrumPieceType::HiHat => 42,
            DrumPieceType::Tom => 48,
            DrumPieceType::FloorTom => 43,
            DrumPieceType::Crash => 49,
            DrumPieceType::Ride => 51,
            DrumPieceType::China => 52,
            DrumPieceType::Splash => 55,
            DrumPieceType::Cowbell => 56,
            DrumPieceType::Tambourine => 54,
            DrumPieceType::Clap => 39,
            DrumPieceType::RimClick => 37,
            DrumPieceType::CrossStick => 37,
            DrumPieceType::Other => 60,
        }
    }

    /// Returns the General MIDI note that plays this piece by default.
    pub fn gm_default_note(&self) -> (r: u8)
        ensures
            r == self.spec_gm_note(),
    {
        match self {
            DrumPieceType::Kick => 36,
            DrumPieceType::Snare => 38,
            DrumPieceType::HiHat => 42,
            DrumPieceType::Tom => 48,
            DrumPieceType::FloorTom => 43,
            DrumPieceType::Crash => 49,
            DrumPieceType::Ride => 51,
            DrumPieceType::China => 52,
            DrumPieceType::Splash => 55,
            DrumPieceType::Cowbell => 56,
            DrumPieceType::Tambourine => 54,
            DrumPieceType::Clap => 39,
            DrumPieceType::RimClick => 37,
            DrumPieceType::CrossStick => 37,
            DrumPieceType::Other => 60,
        }
    }

    /// Returns whether the piece is a cymbal (the hi-hat included).
    pub fn is_cymbal(&self) -> (r: bool)
        ensures
            r == (*self == DrumPieceType::HiHat || *self == DrumPieceType::Crash || *self
                == DrumPieceType::Ride || *self == DrumPieceType::China || *self
                == DrumPieceType::Splash),
    {
        match self {
            DrumPieceType::HiHat | DrumPieceType::Crash | DrumPieceType::Ride
            | DrumPieceType::China | DrumPieceType::Splash => true,
            _ => false,
        }
    }

    /// Returns whether the piece is a drum with a head.
    pub fn is_drum(&self) -> (r: bool)
        ensures
            r == (*self == DrumPieceType::Kick || *self == DrumPieceType::Snare || *self
                == DrumPieceType::Tom || *self == DrumPieceType::FloorTom),
    {
        match self {
            DrumPieceType::Kick | DrumPieceType::Snare | DrumPieceType::Tom
            | DrumPieceType::FloorTom => true,
            _ => false,
        }
    }
}

/// The General MIDI percussion key map.
#[derive(Debug, Clone, Copy)]
pub struct GmDrumMap;

/// The piece type that a General MIDI percussion note plays, if any.
pub open spec fn gm_piece_type(note: u8) -> Option<DrumPieceType> {
    if note == 35 || note == 36 {
        Some(DrumPieceType::Kick)
    } else if note == 37 {
        Some(DrumPieceType::RimClick)
    } else if note == 38 || note == 40 {
        Some(DrumPieceType::Snare)
    } else if note == 39 {
        Some(DrumPieceType::Clap)
    } else if note == 41 || note == 43 {
        Some(DrumPieceType::FloorTom)
    } else if note == 42 || note == 44 || note == 46 {
        Some(DrumPieceType::HiHat)
    } else if note == 45 || note == 47 || note == 48 || note == 50 {
        Some(DrumPieceType::Tom)
    } else if note == 49 || note == 57 {
        Some(DrumPieceType::Crash)
    } else if note == 51 || note == 53 || note == 59 {
        Some(DrumPieceType::Ride)
    } else if note == 52 {
        Some(DrumPieceType::China)
    } else if note == 54 {
        Some(DrumPieceType::Tambourine)
    } else if note == 55 {
        Some(DrumPieceType::Splash)
    } else if note == 56 {
        Some(DrumPieceType::Cowbell)
    } else {
        None
    }
}

impl GmDrumMap {
    /// Lowest and highest note of the map.
    pub const NOTE_RANGE: (u8, u8) = (35, 81);
    /// Acoustic bass drum.
    pub const ACOUSTIC_BASS_DRUM: u8 = 35;
    /// Bass drum 1.
    pub const BASS_DRUM_1: u8 = 36;
    /// Side stick.
    pub const SIDE_STICK: u8 = 37;
    /// Acoustic snare.
    pub const ACOUSTIC_SNARE: u8 = 38;
    /// Hand clap.
    pub const HAND_CLAP: u8 = 39;
    /// Electric snare.
    pub const ELECTRIC_SNARE: u8 = 40;
    /// Low floor tom.
    pub const LOW_FLOOR_TOM: u8 = 41;
    /// Closed hi-hat.
    pub const CLOSED_HI_HAT: u8 = 42;
    /// High floor tom.
    pub const HIGH_FLOOR_TOM: u8 = 43;
    /// Pedal hi-hat.
    pub const PEDAL_HI_HAT: u8 = 44;
    /// Low tom.
    pub const LOW_TOM: u8 = 45;
    /// Open hi-hat.
    pub const OPEN_HI_HAT: u8 = 46;
    /// Low-mid tom.
    pub const LOW_MID_TOM: u8 = 47;
    /// Hi-mid tom.
    pub const HI_MID_TOM: u8 = 48;
    /// Crash cymbal 1.
    pub const CRASH_CYMBAL_1: u8 = 49;
    /// High tom.
    pub const HIGH_TOM: u8 = 50;
    /// Ride cymbal 1.
    pub const RIDE_CYMBAL_1: u8 = 51;
    /// Chinese cymbal.
    pub const CHINESE_CYMBAL: u8 = 52;
    /// Ride bell.
    pub const RIDE_BELL: u8 = 53;
    /// Tambourine.
    pub const TAMBOURINE: u8 = 54;
    /// Splash cymbal.
    pub const SPLASH_CYMBAL: u8 = 55;
    /// Cowbell.
    pub const COWBELL: u8 = 56;
    /// Crash cymbal 2.
    pub const CRASH_CYMBAL_2: u8 = 57;
    /// Vibraslap.
    pub const VIBRASLAP: u8 = 58;
    /// Ride cymbal 2.
    pub const RIDE_CYMBAL_2: u8 = 59;

    /// Returns the piece type that `note` plays, if the map assigns one.
    pub fn piece_type_for_note(note: u8) -> (r: Option<DrumPieceType>)
        ensures
            r == gm_piece_type(note),
    {
        match note {
            35 | 36 => Some(DrumPieceType::Kick),
            37 => Some(DrumPieceType::RimClick),
            38 | 40 => Some(DrumPieceType::Snare),
            39 => Some(DrumPieceType::Clap),
            41 | 43 => Some(DrumPieceType::FloorTom),
            42 | 44 | 46 => Some(DrumPieceType::HiHat),
            45 | 47 | 48 | 50 => Some(DrumPieceType::Tom),
            49 | 57 => Some(DrumPieceType::Crash),
            51 | 53 | 59 => Some(DrumPieceType::Ride),
            52 => Some(DrumPieceType::China),
            54 => Some(DrumPieceType::Tambourine),
            55 => Some(DrumPieceType::Splash),
            56 => Some(DrumPieceType::Cowbell),
            _ => None,
        }
    }

    /// Returns the hi-hat articulation that `note` plays, if any.
    pub fn hihat_articulation_for_note(note: u8) -> (r: Option<DrumArticulation>)
        ensures
            r == if note == 42 {
                Some(DrumArticulation::Closed)
            } else if note == 44 {
                Some(DrumArticulation::PedalClose)
            } else if note == 46 {
                Some(DrumArticulation::Open)
            } else {
                None
            },
    {
        match note {
            42 => Some(DrumArticulation::Closed),
            44 => Some(DrumArticulation::PedalClose),
            46 => Some(DrumArticulation::Open),
            _ => None,
        }
    }

    /// Returns whether `note` lies in the map's range.
    pub fn is_valid_note(note: u8) -> (r: bool)
        ensures
            r == (35 <= note && note <= 81),
    {
        note >= 35 && note <= 81
    }
}

} // verus!
