use continuum_golf::anti_cheat::{cherry_picking_verdict, sandbagging_verdict, skill_jump_verdict};
use continuum_golf::venue::heatmap_cell;

#[test]
fn sandbagging_needs_twenty_shots() {
    let v = sandbagging_verdict(19, true, true, true);
    assert!(!v.enough_data);
    assert!(!v.suspicious);
    assert_eq!(v.score_tenths, 0);
}

#[test]
fn sandbagging_scores_add_up() {
    let v = sandbagging_verdict(50, false, true, true);
    assert!(v.enough_data);
    assert_eq!(v.score_tenths, 7);
    assert!(v.suspicious);
    let v = sandbagging_verdict(50, true, false, true);
    assert_eq!(v.score_tenths, 6);
    assert!(!v.suspicious);
    let v = sandbagging_verdict(49, true, true, true);
    assert_eq!(v.score_tenths, 7);
    let v = sandbagging_verdict(49, true, false, true);
    assert_eq!(v.score_tenths, 3);
    assert!(!v.suspicious);
    let v = sandbagging_verdict(50, true, true, true);
    assert_eq!(v.score_tenths, 10);
}

#[test]
fn cherry_picking_scores() {
    assert!(!cherry_picking_verdict(9, true, true).enough_data);
    let v = cherry_picking_verdict(10, true, true);
    assert_eq!(v.score_tenths, 9);
    assert!(v.suspicious);
    let v = cherry_picking_verdict(10, true, false);
    assert_eq!(v.score_tenths, 5);
    assert!(!v.suspicious);
    assert_eq!(cherry_picking_verdict(10, false, true).score_tenths, 4);
}

#[test]
fn skill_jump_scores() {
    assert!(!skill_jump_verdict(19, 10, true, true).enough_data);
    assert!(!skill_jump_verdict(20, 9, true, true).enough_data);
    let v = skill_jump_verdict(20, 10, true, true);
    assert_eq!(v.score_tenths, 9);
    assert!(v.suspicious);
    let v = skill_jump_verdict(20, 10, true, false);
    assert_eq!(v.score_tenths, 5);
    assert!(!v.suspicious);
    assert!(!v.watch);
    let v = skill_jump_verdict(20, 10, false, true);
    assert_eq!(v.score_tenths, 4);
    assert!(!v.watch);
}

#[test]
fn heatmap_cells() {
    assert_eq!(heatmap_cell(0, 1), Some((0, 0)));
    assert_eq!(heatmap_cell(17, 5), Some((3, 4)));
    assert_eq!(heatmap_cell(30, 8), Some((5, 7)));
    assert_eq!(heatmap_cell(12, 0), None);
    assert_eq!(heatmap_cell(12, 9), None);
}
