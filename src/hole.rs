//! The target catalog and the banding of target distances into club categories.

use vstd::prelude::*;

verus! {

/// Club used for a target, chosen by the target's distance.
#[derive(Clone, Copy, Debug, PartialEq, Eq, Hash, Structural)]
pub enum ClubCategory {
    /// Short targets, up to 130 yards.
    Wedge,
    /// Middle targets, 131 to 185 yards.
    MidIron,
    /// Long targets, beyond 185 yards.
    LongIron,
}

/// The category that a target at `distance_yds` yards falls into.
pub open spec fn category_of(distance_yds: int) -> ClubCategory {
    if distance_yds <= 130 {
        ClubCategory::Wedge
    } else if distance_yds <= 185 {
        ClubCategory::MidIron
    } else {
        ClubCategory::LongIron
    }
}

impl ClubCategory {
    /// Bands a distance in yards: up to 130 is a wedge, up to 185 a mid iron,
    /// anything longer a long iron.
    pub fn from_distance(distance_yds: u16) -> (r: ClubCategory)
        ensures
            r == category_of(distance_yds as int),
    {
        if distance_yds <= 130 {
            ClubCategory::Wedge
        } else if distance_yds <= 185 {
            ClubCategory::MidIron
        } else {
            ClubCategory::LongIron
        }
    }
}


/// A target configuration.
///
/// Its real-valued parameters are held exactly, as integers in fixed units:
/// the scoring radius in hundredths of a foot, the return to player in
/// basis points (8500 is 0.85) and the steepness of the payout curve in
/// tenths (65 is 6.5).
#[derive(Clone, Copy, Debug, PartialEq, Eq, Structural)]
pub struct Hole {
    /// Target number, 1 to 8 in the catalog.
    pub id: u8,
    /// Distance to the target in yards.
    pub distance_yds: u16,
    /// Scoring radius in hundredths of a foot; a miss beyond it pays nothing.
    pub d_max_centi_ft: u32,
    /// Return to player in basis points.
    pub rtp_bps: u32,
    /// Steepness exponent of the payout curve, in tenths.
    pub k_tenths: u32,
    /// Club category, derived from the distance.
    pub category: ClubCategory,
}

impl Hole {
    /// A target is well formed when its scoring radius is positive, its
    /// steepness exceeds one, its return to player lies strictly between
    /// nothing and everything, and its category matches its distance.
    pub open spec fn wf(self) -> bool {
        &&& self.d_max_centi_ft > 0
        &&& self.k_tenths > 10
        &&& 0 < self.rtp_bps < 10000
        &&& self.category == category_of(self.distance_yds as int)
    }

    /// A target whose category is derived from its distance.
    pub fn new(id: u8, distance_yds: u16, d_max_centi_ft: u32, rtp_bps: u32, k_tenths: u32) -> (r:
        Hole)
        ensures
            r.id == id,
            r.distance_yds == distance_yds,
            r.d_max_centi_ft == d_max_centi_ft,
            r.rtp_bps == rtp_bps,
            r.k_tenths == k_tenths,
            r.category == category_of(distance_yds as int),
    {
        let category = ClubCategory::from_distance(distance_yds);
        Hole { id, distance_yds, d_max_centi_ft, rtp_bps, k_tenths, category }
    }

    /// The club category of this target.
    pub fn get_category(&self) -> (r: ClubCategory)
        ensures
            r == self.category,
    {
        self.category
    }
}

/// The catalog entry with the given fields and the category its distance implies.
pub open spec fn entry(id: u8, distance_yds: u16, d_max_centi_ft: u32, k_tenths: u32) -> Hole {
    Hole {
        id,
        distance_yds,
        d_max_centi_ft,
        rtp_bps: 8500,
        k_tenths,
        category: category_of(distance_yds as int),
    }
}

/// The eight targets, in id order. Every target returns 0.85 to the player.
pub open spec fn catalog() -> Seq<Hole> {
    seq![
        entry(1, 75, 1795, 50),
        entry(2, 100, 2569, 50),
        entry(3, 125, 3671, 55),
        entry(4, 150, 4758, 60),
        entry(5, 175, 5909, 60),
        entry(6, 200, 7358, 65),
        entry(7, 225, 8484, 65),
        entry(8, 250, 10114, 65),
    ]
}

/// The catalog as a vector, in id order.
pub fn hole_configurations() -> (r: Vec<Hole>)
    ensures
        r@ == catalog(),
{
    let mut v: Vec<Hole> = Vec::new();
    v.push(Hole::new(1, 75, 1795, 8500, 50));
    v.push(Hole::new(2, 100, 2569, 8500, 50));
    v.push(Hole::new(3, 125, 3671, 8500, 55));
    v.push(Hole::new(4, 150, 4758, 8500, 60));
    v.push(Hole::new(5, 175, 5909, 8500, 60));
    v.push(Hole::new(6, 200, 7358, 8500, 65));
    v.push(Hole::new(7, 225, 8484, 8500, 65));
    v.push(Hole::new(8, 250, 10114, 8500, 65));
    assert(v@ =~= catalog());
    v
}

/// The target with the given id, if the catalog has one.
pub fn get_hole_by_id(id: u8) -> (r: Option<Hole>)
    ensures
        r == (if 1 <= id <= 8 {
            Some(catalog()[id - 1])
        } else {
            None::<Hole>
        }),
{
    if id < 1 || id > 8 {
        return None;
    }
    let holes = hole_configurations();
    Some(holes[(id - 1) as usize])
}

/// Whether a target belongs to the given club category.
pub open spec fn in_category(c: ClubCategory) -> spec_fn(Hole) -> bool {
    |h: Hole| h.category == c
}

/// The targets of one club category, in catalog order.
pub fn get_holes_by_category(category: ClubCategory) -> (r: Vec<Hole>)
    ensures
        r@ == catalog().filter(in_category(category)),
{
    let holes = hole_configurations();
    let mut out: Vec<Hole> = Vec::new();
    let mut i: usize = 0;
    while i < holes.len()
        invariant
            holes@ == catalog(),
            i <= holes.len(),
            out@ == holes@.take(i as int).filter(in_category(category)),
        decreases holes.len() - i,
    {
        proof {
            assert(holes@.take(i + 1) =~= holes@.take(i as int).push(holes@[i as int]));
            holes@.take(i as int).lemma_filter_push(holes@[i as int], in_category(category));
        }
        if holes[i].category == category {
            out.push(holes[i]);
        }
        i += 1;
    }
    assert(holes@.take(holes.len() as int) =~= holes@);
    out
}

/// Every target of the catalog is well formed, and the i-th entry has id i + 1.
pub proof fn lemma_catalog_wf()
    ensures
        catalog().len() == 8,
        forall|i: int| 0 <= i < 8 ==> #[trigger] catalog()[i].wf() && catalog()[i].id == i + 1,
{
}

} // verus!
