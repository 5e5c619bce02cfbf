//! Scoring rules of the post-hoc exploitation checks.
//!
//! Each check looks for a few indicators in a shot log, adds a fixed weight
//! for each one found, and flags the log when the total passes a threshold.
//! Weights are held in tenths (3 is 0.3). The indicators themselves are
//! statistics of the log, measured by the caller.

use vstd::prelude::*;

verus! {

/// The outcome of one check.
#[derive(Clone, Copy, Debug, PartialEq, Eq, Structural)]
pub struct Verdict {
    /// The log was long enough for the check to run.
    pub enough_data: bool,
    /// Sum of the weights of the indicators found, in tenths.
    pub score_tenths: u32,
    /// The score passed the flagging threshold.
    pub suspicious: bool,
    /// The score passed the lower threshold at which the account is watched.
    pub watch: bool,
}

/// The weight `w` when the indicator is present, else nothing.
pub open spec fn weight(present: bool, w: nat) -> nat {
    if present { w } else { 0 }
}

/// The verdict when the log is too short.
pub open spec fn insufficient() -> Verdict {
    Verdict { enough_data: false, score_tenths: 0, suspicious: false, watch: false }
}

/// The verdict for a score, flagged above `flag` and watched above `watch`.
pub open spec fn scored(score: nat, flag: nat, watch: nat) -> Verdict {
    Verdict {
        enough_data: true,
        score_tenths: score as u32,
        suspicious: score > flag,
        watch: score > watch,
    }
}

/// Sandbagging: losing on purpose at small stakes to inflate the multiplier,
/// then betting big. Runs on 20 shots or more. Indicators: the spread of
/// miss distances exceeds 0.8 of their mean (0.3); wager and multiplier are
/// correlated below -0.5 (0.4); from 50 shots on, the mean wager of the
/// second part of the log exceeds five times that of the first (0.3).
/// Flagged above 0.6.
pub open spec fn sandbagging_spec(
    num_shots: nat,
    high_variance: bool,
    wagers_against_quality: bool,
    wager_jump: bool,
) -> Verdict {
    if num_shots < 20 {
        insufficient()
    } else {
        let score = weight(high_variance, 3) + weight(wagers_against_quality, 4) + weight(
            num_shots >= 50 && wager_jump,
            3,
        );
        scored(score, 6, 6)
    }
}

/// Cherry-picking: betting big only on shots that go well. Runs on 10 shots
/// or more. Indicators: wager and multiplier are correlated above 0.5 (0.5);
/// shots wagered at or above the median pay more than 1.5 times the mean
/// multiplier of those below it (0.4). Flagged above 0.6.
pub open spec fn cherry_picking_spec(num_shots: nat, wagers_with_quality: bool, bimodal: bool) -> Verdict {
    if num_shots < 10 {
        insufficient()
    } else {
        let score = weight(wagers_with_quality, 5) + weight(bimodal, 4);
        scored(score, 6, 6)
    }
}

/// Skill jump: a sudden improvement that suggests another person plays the
/// account. Runs on 20 historical and 10 recent shots or more. Indicators:
/// the mean miss improved by more than 40% (0.5); the mean wager more than
/// tripled while the miss improved by more than 30% (0.4). Flagged above 0.7,
/// watched above 0.5.
pub open spec fn skill_jump_spec(
    num_historical: nat,
    num_recent: nat,
    improved: bool,
    stakes_rose_with_skill: bool,
) -> Verdict {
    if num_historical < 20 || num_recent < 10 {
        insufficient()
    } else {
        let score = weight(improved, 5) + weight(stakes_rose_with_skill, 4);
        scored(score, 7, 5)
    }
}

/// Adds `w` tenths to `score` when the indicator is present.
fn add_weight(score: u32, present: bool, w: u32) -> (r: u32)
    requires
        score + w <= 100,
    ensures
        r == score + weight(present, w as nat),
{
    if present { score + w } else { score }
}

/// The sandbagging verdict for a log of `num_shots` shots.
pub fn sandbagging_verdict(
    num_shots: usize,
    high_variance: bool,
    wagers_against_quality: bool,
    wager_jump: bool,
) -> (r: Verdict)
    ensures
        r == sandbagging_spec(num_shots as nat, high_variance, wagers_against_quality, wager_jump),
{
    if num_shots < 20 {
        return Verdict { enough_data: false, score_tenths: 0, suspicious: false, watch: false };
    }
    let mut score: u32 = 0;
    score = add_weight(score, high_variance, 3);
    score = add_weight(score, wagers_against_quality, 4);
    score = add_weight(score, num_shots >= 50 && wager_jump, 3);
    Verdict { enough_data: true, score_tenths: score, suspicious: score > 6, watch: score > 6 }
}

/// The cherry-picking verdict for a log of `num_shots` shots.
pub fn cherry_picking_verdict(num_shots: usize, wagers_with_quality: bool, bimodal: bool) -> (r:
    Verdict)
    ensures
        r == cherry_picking_spec(num_shots as nat, wagers_with_quality, bimodal),
{
    if num_shots < 10 {
        return Verdict { enough_data: false, score_tenths: 0, suspicious: false, watch: false };
    }
    let mut score: u32 = 0;
    score = add_weight(score, wagers_with_quality, 5);
    score = add_weight(score, bimodal, 4);
    Verdict { enough_data: true, score_tenths: score, suspicious: score > 6, watch: score > 6 }
}

/// The skill-jump verdict for a history and a recent log.
pub fn skill_jump_verdict(
    num_historical: usize,
    num_recent: usize,
    improved: bool,
    stakes_rose_with_skill: bool,
) -> (r: Verdict)
    ensures
        r == skill_jump_spec(num_historical as nat, num_recent as nat, improved, stakes_rose_with_skill),
{
    if num_historical < 20 || num_recent < 10 {
        return Verdict { enough_data: false, score_tenths: 0, suspicious: false, watch: false };
    }
    let mut score: u32 = 0;
    score = add_weight(score, improved, 5);
    score = add_weight(score, stakes_rose_with_skill, 4);
    Verdict { enough_data: true, score_tenths: score, suspicious: score > 7, watch: score > 5 }
}

/// No check flags a log too short for it, and a flagged log is always watched.
pub proof fn lemma_short_logs_never_flagged(
    n: nat,
    m: nat,
    a: bool,
    b: bool,
    c: bool,
)
    ensures
        n < 20 ==> !sandbagging_spec(n, a, b, c).suspicious,
        n < 10 ==> !cherry_picking_spec(n, a, b).suspicious,
        (n < 20 || m < 10) ==> !skill_jump_spec(n, m, a, b).suspicious,
        sandbagging_spec(n, a, b, c).suspicious ==> sandbagging_spec(n, a, b, c).watch,
        cherry_picking_spec(n, a, b).suspicious ==> cherry_picking_spec(n, a, b).watch,
        skill_jump_spec(n, m, a, b).suspicious ==> skill_jump_spec(n, m, a, b).watch,
{
}

} // verus!
