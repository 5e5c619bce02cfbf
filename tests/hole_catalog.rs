use continuum_golf::hole::{get_hole_by_id, get_holes_by_category, hole_configurations, ClubCategory, Hole};

fn rtp(h: &Hole) -> f64 {
    h.rtp_bps as f64 / 10000.0
}

#[test]
fn test_club_category_from_distance() {
    assert_eq!(ClubCategory::from_distance(75), ClubCategory::Wedge);
    assert_eq!(ClubCategory::from_distance(125), ClubCategory::Wedge);
    assert_eq!(ClubCategory::from_distance(150), ClubCategory::MidIron);
    assert_eq!(ClubCategory::from_distance(175), ClubCategory::MidIron);
    assert_eq!(ClubCategory::from_distance(200), ClubCategory::LongIron);
    assert_eq!(ClubCategory::from_distance(250), ClubCategory::LongIron);
}

#[test]
fn club_category_band_edges() {
    assert_eq!(ClubCategory::from_distance(0), ClubCategory::Wedge);
    assert_eq!(ClubCategory::from_distance(130), ClubCategory::Wedge);
    assert_eq!(ClubCategory::from_distance(131), ClubCategory::MidIron);
    assert_eq!(ClubCategory::from_distance(185), ClubCategory::MidIron);
    assert_eq!(ClubCategory::from_distance(186), ClubCategory::LongIron);
    assert_eq!(ClubCategory::from_distance(u16::MAX), ClubCategory::LongIron);
}

#[test]
fn test_hole_configurations_exist() {
    let holes = hole_configurations();
    assert_eq!(holes.len(), 8);

    let h1 = &holes[0];
    assert_eq!(h1.id, 1);
    assert_eq!(h1.distance_yds, 75);
    assert_eq!(rtp(h1), 0.85);

    let h8 = &holes[7];
    assert_eq!(h8.id, 8);
    assert_eq!(h8.distance_yds, 250);
    assert_eq!(rtp(h8), 0.85);
}

#[test]
fn test_get_hole_by_id() {
    let hole1 = get_hole_by_id(1).unwrap();
    assert_eq!(hole1.id, 1);
    assert_eq!(hole1.distance_yds, 75);

    let hole8 = get_hole_by_id(8).unwrap();
    assert_eq!(hole8.id, 8);
    assert_eq!(hole8.distance_yds, 250);

    assert!(get_hole_by_id(0).is_none());
    assert!(get_hole_by_id(9).is_none());
}

#[test]
fn test_get_holes_by_category() {
    let wedges = get_holes_by_category(ClubCategory::Wedge);
    assert_eq!(wedges.len(), 3);

    let mid_irons = get_holes_by_category(ClubCategory::MidIron);
    assert_eq!(mid_irons.len(), 2);

    let long_irons = get_holes_by_category(ClubCategory::LongIron);
    assert_eq!(long_irons.len(), 3);
}

#[test]
fn test_rtp_progression() {
    let h1 = get_hole_by_id(1).unwrap();
    assert_eq!(rtp(&h1), 0.85);

    let h4 = get_hole_by_id(4).unwrap();
    assert_eq!(rtp(&h4), 0.85);

    let h8 = get_hole_by_id(8).unwrap();
    assert_eq!(rtp(&h8), 0.85);
}

#[test]
fn catalog_parameters_in_fixed_units() {
    let h4 = get_hole_by_id(4).unwrap();
    assert_eq!(h4.d_max_centi_ft as f64 / 100.0, 47.58);
    assert_eq!(h4.k_tenths as f64 / 10.0, 6.0);
    assert_eq!(h4.category, ClubCategory::MidIron);
    let h8 = get_hole_by_id(8).unwrap();
    assert_eq!(h8.d_max_centi_ft as f64 / 100.0, 101.14);
    assert_eq!(h8.k_tenths as f64 / 10.0, 6.5);
}

#[test]
fn holes_by_category_keep_catalog_order() {
    let ids: Vec<u8> = get_holes_by_category(ClubCategory::Wedge).iter().map(|h| h.id).collect();
    assert_eq!(ids, vec![1, 2, 3]);
    let ids: Vec<u8> = get_holes_by_category(ClubCategory::MidIron).iter().map(|h| h.id).collect();
    assert_eq!(ids, vec![4, 5]);
    let ids: Vec<u8> = get_holes_by_category(ClubCategory::LongIron).iter().map(|h| h.id).collect();
    assert_eq!(ids, vec![6, 7, 8]);
}

#[test]
fn hole_new_derives_category() {
    let hole = Hole::new(4, 150, 4758, 8800, 60);
    assert_eq!(hole.category, ClubCategory::MidIron);
    assert_eq!(hole.get_category(), ClubCategory::MidIron);
    assert_eq!(hole.d_max_centi_ft, 4758);
    let far = Hole::new(6, 200, 7358, 9000, 65);
    assert_eq!(far.get_category(), ClubCategory::LongIron);
}

#[test]
fn every_catalog_entry_matches_its_id() {
    for (i, h) in hole_configurations().iter().enumerate() {
        assert_eq!(h.id as usize, i + 1);
        assert_eq!(get_hole_by_id(h.id), Some(*h));
        assert_eq!(h.category, ClubCategory::from_distance(h.distance_yds));
    }
}

#[test]
fn validate_hole_configurations() {
    // The catalog returns 0.85 on every target.
    let expected_configs = vec![
        (1, 75, 17.95, 0.85, 5.0),
        (2, 100, 25.69, 0.85, 5.0),
        (3, 125, 36.71, 0.85, 5.5),
        (4, 150, 47.58, 0.85, 6.0),
        (5, 175, 59.09, 0.85, 6.0),
        (6, 200, 73.58, 0.85, 6.5),
        (7, 225, 84.84, 0.85, 6.5),
        (8, 250, 101.14, 0.85, 6.5),
    ];

    for (id, dist, d_max, rtp_expected, k) in expected_configs {
        let hole = get_hole_by_id(id).expect("hole in catalog");
        assert_eq!(hole.id, id, "Hole ID mismatch");
        assert_eq!(hole.distance_yds, dist, "Hole {} distance mismatch", id);
        assert!((hole.d_max_centi_ft as f64 / 100.0 - d_max).abs() < 0.01, "Hole {} d_max mismatch", id);
        assert!((rtp(&hole) - rtp_expected).abs() < 0.001, "Hole {} RTP mismatch", id);
        assert!((hole.k_tenths as f64 / 10.0 - k).abs() < 0.01, "Hole {} k mismatch", id);
    }
}
