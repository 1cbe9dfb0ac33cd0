use amdusias::siren::drum::{DrumArticulation, DrumPieceType, GmDrumMap, MicPosition};

#[test]
fn test_drum_piece_type_equality() {
    assert_eq!(DrumPieceType::Kick, DrumPieceType::Kick);
    assert_ne!(DrumPieceType::Kick, DrumPieceType::Snare);
}

#[test]
fn test_drum_piece_type_all_variants() {
    let types = [
        DrumPieceType::Kick,
        DrumPieceType::Snare,
        DrumPieceType::HiHat,
        DrumPieceType::Tom,
        DrumPieceType::FloorTom,
        DrumPieceType::Crash,
        DrumPieceType::Ride,
        DrumPieceType::China,
        DrumPieceType::Splash,
        DrumPieceType::Cowbell,
        DrumPieceType::Tambourine,
        DrumPieceType::Clap,
        DrumPieceType::RimClick,
        DrumPieceType::CrossStick,
        DrumPieceType::Other,
    ];
    assert_eq!(types.len(), 15);
}

#[test]
fn test_drum_piece_type_gm_notes() {
    assert_eq!(DrumPieceType::Kick.gm_default_note(), 36);
    assert_eq!(DrumPieceType::Snare.gm_default_note(), 38);
    assert_eq!(DrumPieceType::HiHat.gm_default_note(), 42);
    assert_eq!(DrumPieceType::Crash.gm_default_note(), 49);
    assert_eq!(DrumPieceType::Ride.gm_default_note(), 51);
}

#[test]
fn test_drum_piece_type_is_cymbal() {
    assert!(DrumPieceType::HiHat.is_cymbal());
    assert!(DrumPieceType::Crash.is_cymbal());
    assert!(DrumPieceType::Ride.is_cymbal());
    assert!(DrumPieceType::China.is_cymbal());
    assert!(DrumPieceType::Splash.is_cymbal());

    assert!(!DrumPieceType::Kick.is_cymbal());
    assert!(!DrumPieceType::Snare.is_cymbal());
    assert!(!DrumPieceType::Tom.is_cymbal());
}

#[test]
fn test_drum_piece_type_is_drum() {
    assert!(DrumPieceType::Kick.is_drum());
    assert!(DrumPieceType::Snare.is_drum());
    assert!(DrumPieceType::Tom.is_drum());
    assert!(DrumPieceType::FloorTom.is_drum());

    assert!(!DrumPieceType::HiHat.is_drum());
    assert!(!DrumPieceType::Crash.is_drum());
    assert!(!DrumPieceType::Cowbell.is_drum());
}

#[test]
fn test_drum_articulation_default() {
    let art = DrumArticulation::default();
    assert_eq!(art, DrumArticulation::Center);
}

#[test]
fn test_drum_articulation_equality() {
    assert_eq!(DrumArticulation::RimShot, DrumArticulation::RimShot);
    assert_ne!(DrumArticulation::RimShot, DrumArticulation::CrossStick);
}

#[test]
fn test_drum_articulation_is_hihat_specific() {
    assert!(DrumArticulation::Closed.is_hihat_specific());
    assert!(DrumArticulation::HalfOpen.is_hihat_specific());
    assert!(DrumArticulation::Open.is_hihat_specific());
    assert!(DrumArticulation::PedalClose.is_hihat_specific());
    assert!(DrumArticulation::FootSplash.is_hihat_specific());

    assert!(!DrumArticulation::Center.is_hihat_specific());
    assert!(!DrumArticulation::RimShot.is_hihat_specific());
}

#[test]
fn test_drum_articulation_is_cymbal_specific() {
    assert!(DrumArticulation::Bell.is_cymbal_specific());
    assert!(DrumArticulation::Bow.is_cymbal_specific());
    assert!(DrumArticulation::CrashHit.is_cymbal_specific());
    assert!(DrumArticulation::Choke.is_cymbal_specific());
    assert!(DrumArticulation::Scrape.is_cymbal_specific());

    assert!(!DrumArticulation::Center.is_cymbal_specific());
    assert!(!DrumArticulation::Closed.is_cymbal_specific());
}

#[test]
fn test_drum_articulation_has_grace_note() {
    assert!(DrumArticulation::Flam.has_grace_note());
    assert!(DrumArticulation::Drag.has_grace_note());

    assert!(!DrumArticulation::Center.has_grace_note());
    assert!(!DrumArticulation::RimShot.has_grace_note());
    assert!(!DrumArticulation::GhostNote.has_grace_note());
}

#[test]
fn test_drum_articulation_grace_note_count() {
    assert_eq!(DrumArticulation::Flam.grace_note_count(), 1);
    assert_eq!(DrumArticulation::Drag.grace_note_count(), 2);
    assert_eq!(DrumArticulation::Center.grace_note_count(), 0);
    assert_eq!(DrumArticulation::RimShot.grace_note_count(), 0);
}

#[test]
fn test_mic_position_equality() {
    assert_eq!(MicPosition::Close, MicPosition::Close);
    assert_ne!(MicPosition::Close, MicPosition::Room);
}

#[test]
fn test_mic_position_all_variants() {
    let positions = [
        MicPosition::Close,
        MicPosition::Overhead,
        MicPosition::Room,
        MicPosition::Bottom,
        MicPosition::Top,
    ];
    assert_eq!(positions.len(), 5);
}

#[test]
fn test_gm_drum_map_range() {
    assert_eq!(GmDrumMap::NOTE_RANGE, (35, 81));
}

#[test]
fn test_gm_drum_map_is_valid_note() {
    assert!(GmDrumMap::is_valid_note(35));
    assert!(GmDrumMap::is_valid_note(36));
    assert!(GmDrumMap::is_valid_note(81));
    assert!(!GmDrumMap::is_valid_note(34));
    assert!(!GmDrumMap::is_valid_note(82));
}

#[test]
fn test_gm_drum_map_constants() {
    assert_eq!(GmDrumMap::ACOUSTIC_BASS_DRUM, 35);
    assert_eq!(GmDrumMap::BASS_DRUM_1, 36);
    assert_eq!(GmDrumMap::SIDE_STICK, 37);
    assert_eq!(GmDrumMap::ACOUSTIC_SNARE, 38);
    assert_eq!(GmDrumMap::HAND_CLAP, 39);
    assert_eq!(GmDrumMap::CLOSED_HI_HAT, 42);
    assert_eq!(GmDrumMap::OPEN_HI_HAT, 46);
    assert_eq!(GmDrumMap::CRASH_CYMBAL_1, 49);
    assert_eq!(GmDrumMap::RIDE_CYMBAL_1, 51);
}

#[test]
fn test_gm_drum_map_piece_type_for_note_kicks() {
    assert_eq!(
        GmDrumMap::piece_type_for_note(35),
        Some(DrumPieceType::Kick)
    );
    assert_eq!(
        GmDrumMap::piece_type_for_note(36),
        Some(DrumPieceType::Kick)
    );
}

#[test]
fn test_gm_drum_map_piece_type_for_note_snares() {
    assert_eq!(
        GmDrumMap::piece_type_for_note(38),
        Some(DrumPieceType::Snare)
    );
    assert_eq!(
        GmDrumMap::piece_type_for_note(40),
        Some(DrumPieceType::Snare)
    );
}

#[test]
fn test_gm_drum_map_piece_type_for_note_hihats() {
    assert_eq!(
        GmDrumMap::piece_type_for_note(42),
        Some(DrumPieceType::HiHat)
    );
    assert_eq!(
        GmDrumMap::piece_type_for_note(44),
        Some(DrumPieceType::HiHat)
    );
    assert_eq!(
        GmDrumMap::piece_type_for_note(46),
        Some(DrumPieceType::HiHat)
    );
}

#[test]
fn test_gm_drum_map_piece_type_for_note_toms() {
    assert_eq!(
        GmDrumMap::piece_type_for_note(45),
        Some(DrumPieceType::Tom)
    );
    assert_eq!(
        GmDrumMap::piece_type_for_note(47),
        Some(DrumPieceType::Tom)
    );
    assert_eq!(
        GmDrumMap::piece_type_for_note(48),
        Some(DrumPieceType::Tom)
    );
    assert_eq!(
        GmDrumMap::piece_type_for_note(50),
        Some(DrumPieceType::Tom)
    );
}

#[test]
fn test_gm_drum_map_piece_type_for_note_floor_toms() {
    assert_eq!(
        GmDrumMap::piece_type_for_note(41),
        Some(DrumPieceType::FloorTom)
    );
    assert_eq!(
        GmDrumMap::piece_type_for_note(43),
        Some(DrumPieceType::FloorTom)
    );
}

#[test]
fn test_gm_drum_map_piece_type_for_note_cymbals() {
    assert_eq!(
        GmDrumMap::piece_type_for_note(49),
        Some(DrumPieceType::Crash)
    );
    assert_eq!(
        GmDrumMap::piece_type_for_note(57),
        Some(DrumPieceType::Crash)
    );
    assert_eq!(
        GmDrumMap::piece_type_for_note(51),
        Some(DrumPieceType::Ride)
    );
    assert_eq!(
        GmDrumMap::piece_type_for_note(52),
        Some(DrumPieceType::China)
    );
    assert_eq!(
        GmDrumMap::piece_type_for_note(55),
        Some(DrumPieceType::Splash)
    );
}

#[test]
fn test_gm_drum_map_piece_type_for_note_percussion() {
    assert_eq!(
        GmDrumMap::piece_type_for_note(39),
        Some(DrumPieceType::Clap)
    );
    assert_eq!(
        GmDrumMap::piece_type_for_note(54),
        Some(DrumPieceType::Tambourine)
    );
    assert_eq!(
        GmDrumMap::piece_type_for_note(56),
        Some(DrumPieceType::Cowbell)
    );
}

#[test]
fn test_gm_drum_map_piece_type_for_unknown() {
    // Notes outside typical drum sounds
    assert_eq!(GmDrumMap::piece_type_for_note(60), None);
    assert_eq!(GmDrumMap::piece_type_for_note(100), None);
}

#[test]
fn test_gm_drum_map_hihat_articulation() {
    assert_eq!(
        GmDrumMap::hihat_articulation_for_note(42),
        Some(DrumArticulation::Closed)
    );
    assert_eq!(
        GmDrumMap::hihat_articulation_for_note(44),
        Some(DrumArticulation::PedalClose)
    );
    assert_eq!(
        GmDrumMap::hihat_articulation_for_note(46),
        Some(DrumArticulation::Open)
    );
    assert_eq!(GmDrumMap::hihat_articulation_for_note(50), None);
}

