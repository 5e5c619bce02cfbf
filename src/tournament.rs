//! Tournament rules that do not depend on scores: the game mode and how many
//! finishing places a prize split pays.

use vstd::prelude::*;
use crate::config::ConfigError;
use vstd::string::StrSliceExecFns;

verus! {

/// What a tournament scores.
#[derive(Clone, Copy, Debug, PartialEq, Eq, Structural)]
pub enum GameMode {
    /// The longest drive wins.
    LongestDrive,
    /// The smallest miss on the given target wins.
    ClosestToPin { hole_id: u8 },
}

impl GameMode {
    /// Reads a game mode by name, `longest` or `ctp`; the target id is
    /// checked first, whatever the mode, and must lie in 1 to 8.
    pub fn parse(mode: &str, hole_id: u8) -> (r: Result<GameMode, ConfigError>)
        ensures
            !(1 <= hole_id <= 8) ==> r == Err::<GameMode, ConfigError>(
                ConfigError::InvalidHoleId(hole_id),
            ),
            1 <= hole_id <= 8 ==> r == (if mode@ == "longest"@ {
                Ok::<GameMode, ConfigError>(GameMode::LongestDrive)
            } else if mode@ == "ctp"@ {
                Ok(GameMode::ClosestToPin { hole_id })
            } else {
                Err(ConfigError::UnknownOption)
            }),
    {
        if hole_id < 1 || hole_id > 8 {
            return Err(ConfigError::InvalidHoleId(hole_id));
        }
        let given = mode.to_owned();
        let longest = "longest".to_owned();
        let ctp = "ctp".to_owned();
        if given == longest {
            Ok(GameMode::LongestDrive)
        } else if given == ctp {
            Ok(GameMode::ClosestToPin { hole_id })
        } else {
            Err(ConfigError::UnknownOption)
        }
    }

    /// Whether a lower score ranks higher: true for closest to the pin.
    pub fn lower_is_better(&self) -> (r: bool)
        ensures
            r == (*self is ClosestToPin),
    {
        match self {
            GameMode::LongestDrive => false,
            GameMode::ClosestToPin { .. } => true,
        }
    }
}

/// The smaller of the number of shares and the number of entrants.
pub open spec fn paid_places(shares: nat, entrants: nat) -> nat {
    if shares <= entrants { shares } else { entrants }
}

/// How many places are paid when a split has `shares` shares and the
/// leaderboard `entrants` entries: a share with no one in its place is kept
/// by the house.
pub fn places_paid(shares: usize, entrants: usize) -> (r: usize)
    ensures
        r == paid_places(shares as nat, entrants as nat),
{
    if shares <= entrants { shares } else { entrants }
}

/// Lexicographic order on character sequences, the order of `str`.
pub open spec fn lex_lt(a: Seq<char>, b: Seq<char>) -> bool
    decreases a.len(),
{
    if a.len() == 0 {
        b.len() > 0
    } else if b.len() == 0 {
        false
    } else if a[0] != b[0] {
        (a[0] as int) < (b[0] as int)
    } else {
        lex_lt(a.drop_first(), b.drop_first())
    }
}

proof fn lemma_lex_total(a: Seq<char>, b: Seq<char>)
    ensures
        a != b ==> lex_lt(a, b) || lex_lt(b, a),
        !(lex_lt(a, b) && lex_lt(b, a)),
        !lex_lt(a, a),
    decreases a.len(),
{
    if a.len() > 0 && b.len() > 0 {
        lemma_lex_total(a.drop_first(), b.drop_first());
        lemma_lex_total(a.drop_first(), a.drop_first());
        if a[0] == b[0] && a.drop_first() == b.drop_first() {
            assert(a =~= seq![a[0]] + a.drop_first());
            assert(b =~= seq![b[0]] + b.drop_first());
        }
        if a[0] != b[0] {
            assert((a[0] as int) != (b[0] as int));
        }
    } else if a.len() > 0 {
        lemma_lex_total(a.drop_first(), a.drop_first());
    } else if b.len() == 0 {
        assert(a =~= b);
    }
}

proof fn lemma_lex_trans(a: Seq<char>, b: Seq<char>, c: Seq<char>)
    requires
        lex_lt(a, b),
        lex_lt(b, c),
    ensures
        lex_lt(a, c),
    decreases a.len(),
{
    if a.len() > 0 && b.len() > 0 && c.len() > 0 && a[0] == b[0] && b[0] == c[0] {
        lemma_lex_trans(a.drop_first(), b.drop_first(), c.drop_first());
    }
}

proof fn lemma_lex_step(a: Seq<char>, b: Seq<char>, i: int)
    requires
        0 <= i < a.len(),
        i < b.len(),
    ensures
        lex_lt(a.skip(i), b.skip(i)) == if a[i] != b[i] {
            (a[i] as int) < (b[i] as int)
        } else {
            lex_lt(a.skip(i + 1), b.skip(i + 1))
        },
{
    assert(a.skip(i).drop_first() =~= a.skip(i + 1));
    assert(b.skip(i).drop_first() =~= b.skip(i + 1));
}

/// Whether player id `a` sorts before `b`.
fn id_before(a: &String, b: &String) -> (r: bool)
    ensures
        r == lex_lt(a@, b@),
{
    let sa = a.as_str();
    let sb = b.as_str();
    let la = sa.unicode_len();
    let lb = sb.unicode_len();
    let mut i: usize = 0;
    assert(a@.skip(0) =~= a@);
    assert(b@.skip(0) =~= b@);
    while i < la && i < lb
        invariant
            sa@ == a@,
            sb@ == b@,
            i <= la,
            i <= lb,
            la == a@.len(),
            lb == b@.len(),
            lex_lt(a@, b@) == lex_lt(a@.skip(i as int), b@.skip(i as int)),
        decreases la - i,
    {
        let ca = sa.get_char(i);
        let cb = sb.get_char(i);
        proof {
            lemma_lex_step(a@, b@, i as int);
        }
        if ca != cb {
            let ua = ca as u32;
            let ub = cb as u32;
            return ua < ub;
        }
        i += 1;
    }
    proof {
        if i == la {
            assert(a@.skip(i as int).len() == 0);
        } else {
            assert(b@.skip(i as int).len() == 0);
            assert(a@.skip(i as int).len() > 0);
        }
    }
    i == la && i < lb
}

/// Whether entry `i` ranks strictly ahead of entry `j`: a better score
/// first (lower or higher as the mode wants), then the id that sorts
/// first, then the earlier entry.
pub open spec fn ahead(keys: Seq<u64>, ids: Seq<String>, lower: bool, i: int, j: int) -> bool {
    if keys[i] != keys[j] {
        if lower {
            keys[i] < keys[j]
        } else {
            keys[i] > keys[j]
        }
    } else if ids[i]@ != ids[j]@ {
        lex_lt(ids[i]@, ids[j]@)
    } else {
        i < j
    }
}

proof fn lemma_ahead_order(keys: Seq<u64>, ids: Seq<String>, lower: bool, i: int, j: int, k: int)
    ensures
        i != j ==> ahead(keys, ids, lower, i, j) || ahead(keys, ids, lower, j, i),
        !(ahead(keys, ids, lower, i, j) && ahead(keys, ids, lower, j, i)),
        ahead(keys, ids, lower, i, j) && ahead(keys, ids, lower, j, k) ==> ahead(
            keys,
            ids,
            lower,
            i,
            k,
        ),
{
    lemma_lex_total(ids[i]@, ids[j]@);
    lemma_lex_total(ids[j]@, ids[k]@);
    lemma_lex_total(ids[i]@, ids[k]@);
    if ahead(keys, ids, lower, i, j) && ahead(keys, ids, lower, j, k) && keys[i] == keys[j]
        && keys[j] == keys[k] && ids[i]@ != ids[j]@ && ids[j]@ != ids[k]@ {
        lemma_lex_trans(ids[i]@, ids[j]@, ids[k]@);
    }
}

fn entry_ahead(keys: &Vec<u64>, ids: &Vec<String>, lower: bool, i: usize, j: usize) -> (r: bool)
    requires
        i < keys.len(),
        j < keys.len(),
        keys.len() == ids.len(),
    ensures
        r == ahead(keys@, ids@, lower, i as int, j as int),
{
    if keys[i] != keys[j] {
        if lower {
            keys[i] < keys[j]
        } else {
            keys[i] > keys[j]
        }
    } else if ids[i] != ids[j] {
        id_before(&ids[i], &ids[j])
    } else {
        i < j
    }
}

/// The leaderboard order of the entries: entry `i` has score key `keys[i]`,
/// whose order is that of the scores, and player id `ids[i]`. The result
/// lists every entry once, best first; equal scores go by id.
pub fn rank_entries(keys: &Vec<u64>, ids: &Vec<String>, lower_is_better: bool) -> (r: Vec<usize>)
    requires
        keys.len() == ids.len(),
    ensures
        r.len() == keys.len(),
        forall|p: int| 0 <= p < r.len() ==> r[p] < keys.len(),
        forall|e: usize| e < keys.len() ==> #[trigger] r@.contains(e),
        forall|p: int, q: int|
            0 <= p < q < r.len() ==> ahead(keys@, ids@, lower_is_better, #[trigger] r[p] as int, #[trigger] r[q] as int),
{
    let n = keys.len();
    let mut r: Vec<usize> = Vec::new();
    let mut x: usize = 0;
    while x < n
        invariant
            n == keys.len(),
            keys.len() == ids.len(),
            x <= n,
            r.len() == x,
            forall|p: int| 0 <= p < r.len() ==> r[p] < x,
            forall|e: usize| e < x ==> #[trigger] r@.contains(e),
            forall|p: int, q: int|
                0 <= p < q < r.len() ==> ahead(keys@, ids@, lower_is_better, #[trigger] r[p] as int, #[trigger] r[q] as int),
        decreases n - x,
    {
        let mut pos: usize = 0;
        while pos < r.len() && !entry_ahead(keys, ids, lower_is_better, x, r[pos])
            invariant
                n == keys.len(),
                keys.len() == ids.len(),
                x < n,
                pos <= r.len(),
                forall|p: int| 0 <= p < r.len() ==> r[p] < x,
                forall|q: int|
                    0 <= q < pos ==> !ahead(keys@, ids@, lower_is_better, x as int, #[trigger] r[q] as int),
            decreases r.len() - pos,
        {
            pos += 1;
        }
        let ghost old_r = r@;
        r.insert(pos, x);
        proof {
            assert(r@ == old_r.insert(pos as int, x));
            assert forall|p: int, q: int| 0 <= p < q < r.len() implies ahead(
                keys@,
                ids@,
                lower_is_better,
                #[trigger] r[p] as int,
                #[trigger] r[q] as int,
            ) by {
                if q < pos {
                } else if q == pos {
                    lemma_ahead_order(keys@, ids@, lower_is_better, r[p] as int, x as int, 0);
                } else if p < pos {
                    lemma_ahead_order(keys@, ids@, lower_is_better, r[p] as int, x as int, old_r[q - 1] as int);
                    lemma_ahead_order(keys@, ids@, lower_is_better, x as int, old_r[pos as int] as int, old_r[q - 1] as int);
                    if pos < q - 1 {
                        assert(ahead(keys@, ids@, lower_is_better, old_r[pos as int] as int, old_r[q - 1] as int));
                    }
                    lemma_ahead_order(keys@, ids@, lower_is_better, r[p] as int, old_r[pos as int] as int, old_r[q - 1] as int);
                } else if p == pos {
                    lemma_ahead_order(keys@, ids@, lower_is_better, x as int, old_r[pos as int] as int, old_r[q - 1] as int);
                    if pos < q - 1 {
                        assert(ahead(keys@, ids@, lower_is_better, old_r[pos as int] as int, old_r[q - 1] as int));
                    }
                } else {
                    assert(ahead(keys@, ids@, lower_is_better, old_r[p - 1] as int, old_r[q - 1] as int));
                }
            }
            assert forall|e: usize| e < x + 1 implies #[trigger] r@.contains(e) by {
                if e == x {
                    assert(r@[pos as int] == e);
                } else {
                    assert(old_r.contains(e));
                    let p0 = choose|p: int| 0 <= p < old_r.len() && old_r[p] == e;
                    if p0 < pos {
                        assert(r@[p0] == e);
                    } else {
                        assert(r@[p0 + 1] == e);
                    }
                }
            }
        }
        x += 1;
    }
    r
}

/// A tournament without players pays nothing, whatever its split.
pub proof fn lemma_empty_tournament_pays_nothing(shares: usize)
    ensures
        paid_places(shares as nat, 0) == 0,
{
}

} // verus!
