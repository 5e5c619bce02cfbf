//! Venue bookkeeping on integers: handicap buckets and target columns of the
//! hold heatmap, the multiplier histogram, and handicaps drawn from a
//! player archetype.

use vstd::prelude::*;

verus! {

/// Number of handicap buckets of the heatmap.
pub const NUM_HANDICAP_BUCKETS: usize = 6;

/// Number of bins of the multiplier histogram.
pub const NUM_MULTIPLIER_BINS: usize = 11;

/// The heatmap row of a handicap: 0-4, 5-9, 10-14, 15-19, 20-24, and 25 up.
pub open spec fn bucket_of(handicap: int) -> int {
    if handicap >= 25 {
        5
    } else {
        handicap / 5
    }
}

/// The heatmap row of a handicap: 0-4, 5-9, 10-14, 15-19, 20-24, 25-30; a
/// handicap above 30 falls in the last row.
pub fn handicap_bucket(handicap: u8) -> (r: usize)
    ensures
        r == bucket_of(handicap as int),
        r < NUM_HANDICAP_BUCKETS,
{
    if handicap >= 25 {
        5
    } else {
        (handicap / 5) as usize
    }
}

/// The heatmap column of a target: its place in the catalog.
pub fn hole_column(hole_id: u8) -> (r: Option<usize>)
    ensures
        r == (if 1 <= hole_id <= 8 {
            Some((hole_id - 1) as usize)
        } else {
            None::<usize>
        }),
{
    if hole_id < 1 || hole_id > 8 {
        None
    } else {
        Some((hole_id - 1) as usize)
    }
}

/// The heatmap cell of a shot: the row of the player's handicap and the column
/// of the target, or nothing for an id outside the catalog.
pub fn heatmap_cell(handicap: u8, hole_id: u8) -> (r: Option<(usize, usize)>)
    ensures
        r == (if 1 <= hole_id <= 8 {
            Some((bucket_of(handicap as int) as usize, (hole_id - 1) as usize))
        } else {
            None::<(usize, usize)>
        }),
{
    match hole_column(hole_id) {
        Some(col) => Some((handicap_bucket(handicap), col)),
        None => None,
    }
}

/// The histogram bin of a multiplier whose whole part is `whole`: that whole
/// part, with everything from ten up in the last bin.
pub open spec fn bin_of(whole: u64) -> int {
    if whole >= 10 {
        10
    } else {
        whole as int
    }
}

/// Whether a multiplier falls in bin `b`.
pub open spec fn in_bin(b: int) -> spec_fn(u64) -> bool {
    |w: u64| bin_of(w) == b
}

/// Counts multipliers per bin, from their whole parts: bin `b` holds the
/// multipliers `m` with `min(⌊m⌋, 10) == b`.
pub fn multiplier_histogram(wholes: &Vec<u64>) -> (r: Vec<usize>)
    ensures
        r@.len() == NUM_MULTIPLIER_BINS,
        forall|b: int|
            0 <= b < NUM_MULTIPLIER_BINS ==> #[trigger] r@[b] == wholes@.filter(in_bin(b)).len(),
{
    let mut counts: Vec<usize> = Vec::new();
    let mut k: usize = 0;
    while k < NUM_MULTIPLIER_BINS
        invariant
            k <= NUM_MULTIPLIER_BINS,
            counts@.len() == k,
            forall|b: int| 0 <= b < k ==> #[trigger] counts@[b] == 0,
        decreases NUM_MULTIPLIER_BINS - k,
    {
        counts.push(0);
        k += 1;
    }
    proof {
        assert forall|b: int| 0 <= b < NUM_MULTIPLIER_BINS implies #[trigger] counts@[b]
            == wholes@.take(0).filter(in_bin(b)).len() by {
            assert(wholes@.take(0) =~= Seq::<u64>::empty());
            reveal(Seq::filter);
        }
    }
    let mut i: usize = 0;
    while i < wholes.len()
        invariant
            i <= wholes.len(),
            counts@.len() == NUM_MULTIPLIER_BINS,
            forall|b: int|
                0 <= b < NUM_MULTIPLIER_BINS ==> #[trigger] counts@[b] == wholes@.take(
                    i as int,
                ).filter(in_bin(b)).len(),
        decreases wholes.len() - i,
    {
        let w = wholes[i];
        let bin: usize = if w >= 10 { 10 } else { w as usize };
        proof {
            assert(wholes@.take(i + 1) =~= wholes@.take(i as int).push(w));
            assert forall|b: int| 0 <= b < NUM_MULTIPLIER_BINS implies #[trigger] wholes@.take(
                i + 1,
            ).filter(in_bin(b)).len() == wholes@.take(i as int).filter(in_bin(b)).len() + (if b
                == bin {
                1int
            } else {
                0
            }) by {
                wholes@.take(i as int).lemma_filter_push(w, in_bin(b));
            }
            wholes@.take(i as int).lemma_filter_len(in_bin(bin as int));
            assert(wholes@.take(i as int).len() == i);
        }
        let c = counts[bin];
        counts.set(bin, c + 1);
        i += 1;
    }
    assert(wholes@.take(wholes.len() as int) =~= wholes@);
    counts
}

/// Multipliers counted in the first `n` bins.
pub open spec fn counted_in_bins(wholes: Seq<u64>, n: nat) -> nat
    decreases n,
{
    if n == 0 {
        0
    } else {
        counted_in_bins(wholes, (n - 1) as nat) + wholes.filter(in_bin(n - 1)).len()
    }
}

proof fn lemma_counted_push(wholes: Seq<u64>, w: u64, n: nat)
    ensures
        counted_in_bins(wholes.push(w), n) == counted_in_bins(wholes, n) + if bin_of(w) < n {
            1nat
        } else {
            0
        },
    decreases n,
{
    if n > 0 {
        lemma_counted_push(wholes, w, (n - 1) as nat);
        wholes.lemma_filter_push(w, in_bin(n - 1));
    }
}

/// Every multiplier lands in exactly one bin: the eleven bins together hold
/// as many multipliers as there are.
pub proof fn lemma_histogram_counts_every_shot(wholes: Seq<u64>)
    ensures
        counted_in_bins(wholes, NUM_MULTIPLIER_BINS as nat) == wholes.len(),
    decreases wholes.len(),
{
    if wholes.len() == 0 {
        assert forall|b: int| #[trigger] wholes.filter(in_bin(b)).len() == 0 by {
            reveal(Seq::filter);
        }
        assert(counted_in_bins(wholes, 11) == 0) by {
            reveal_with_fuel(counted_in_bins, 12);
        }
    } else {
        let init = wholes.drop_last();
        let w = wholes.last();
        assert(wholes =~= init.push(w));
        lemma_histogram_counts_every_shot(init);
        lemma_counted_push(init, w, 11);
    }
}

/// A handicap drawn as a whole number, held to the range 0 to 30.
pub fn clamp_handicap(drawn: i64) -> (r: u8)
    ensures
        r as int == (if drawn < 0 {
            0
        } else if drawn > 30 {
            30
        } else {
            drawn as int
        }),
{
    if drawn < 0 {
        0
    } else if drawn > 30 {
        30
    } else {
        drawn as u8
    }
}

} // verus!
