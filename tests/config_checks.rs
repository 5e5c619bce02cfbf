use continuum_golf::config::{validate_handicap, validate_hole_id, validate_hole_ids, ConfigError};
use continuum_golf::tournament::{places_paid, GameMode};

#[test]
fn handicap_range() {
    assert_eq!(validate_handicap(0), Ok(0));
    assert_eq!(validate_handicap(30), Ok(30));
    assert_eq!(validate_handicap(31), Err(ConfigError::InvalidHandicap(31)));
}

#[test]
fn hole_id_range() {
    assert_eq!(validate_hole_id(4).unwrap().distance_yds, 150);
    assert_eq!(validate_hole_id(0), Err(ConfigError::InvalidHoleId(0)));
    assert_eq!(validate_hole_id(9), Err(ConfigError::InvalidHoleId(9)));
}

#[test]
fn weighted_ids_report_first_invalid() {
    assert_eq!(validate_hole_ids(&vec![5]), Ok(()));
    assert_eq!(validate_hole_ids(&vec![]), Ok(()));
    assert_eq!(validate_hole_ids(&vec![1, 12, 0]), Err(ConfigError::InvalidHoleId(12)));
}

#[test]
fn game_mode_names() {
    assert_eq!(GameMode::parse("ctp", 4), Ok(GameMode::ClosestToPin { hole_id: 4 }));
    assert_eq!(GameMode::parse("longest", 4), Ok(GameMode::LongestDrive));
    assert_eq!(GameMode::parse("putt", 4), Err(ConfigError::UnknownOption));
    assert_eq!(GameMode::parse("ctp", 9), Err(ConfigError::InvalidHoleId(9)));
    assert_eq!(GameMode::parse("longest", 0), Err(ConfigError::InvalidHoleId(0)));
}

#[test]
fn ranking_direction() {
    assert!(GameMode::ClosestToPin { hole_id: 1 }.lower_is_better());
    assert!(!GameMode::LongestDrive.lower_is_better());
}

#[test]
fn paid_places_never_exceed_entrants() {
    assert_eq!(places_paid(3, 10), 3);
    assert_eq!(places_paid(3, 2), 2);
    assert_eq!(places_paid(1, 5), 1);
    assert_eq!(places_paid(3, 0), 0);
}
