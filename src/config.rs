//! Configuration errors and the checks that reject a malformed configuration
//! before any shot is simulated.

use vstd::prelude::*;
use crate::hole::{Hole, catalog, get_hole_by_id};

verus! {

/// Why a configuration was rejected.
#[derive(Clone, Copy, Debug, PartialEq, Eq, Structural)]
pub enum ConfigError {
    /// A target id outside 1 to 8.
    InvalidHoleId(u8),
    /// A handicap above 30.
    InvalidHandicap(u8),
    /// A minimum wager that is not positive, or above the maximum.
    InvalidWagerRange,
    /// A name that matches none of the accepted options.
    UnknownOption,
    /// A process noise below zero.
    NegativeProcessNoise,
    /// A Simpson rule asked for an odd or zero number of intervals.
    InvalidSubdivisions(usize),
}

/// The largest handicap a player may have.
pub const MAX_HANDICAP: u8 = 30;

/// Accepts a handicap of at most 30.
pub fn validate_handicap(handicap: u8) -> (r: Result<u8, ConfigError>)
    ensures
        r == (if handicap <= 30 {
            Ok::<u8, ConfigError>(handicap)
        } else {
            Err(ConfigError::InvalidHandicap(handicap))
        }),
{
    if handicap > MAX_HANDICAP {
        Err(ConfigError::InvalidHandicap(handicap))
    } else {
        Ok(handicap)
    }
}

/// The catalog target with the given id, or an error for an id outside 1 to 8.
pub fn validate_hole_id(id: u8) -> (r: Result<Hole, ConfigError>)
    ensures
        r == (if 1 <= id <= 8 {
            Ok::<Hole, ConfigError>(catalog()[id - 1])
        } else {
            Err(ConfigError::InvalidHoleId(id))
        }),
{
    match get_hole_by_id(id) {
        Some(h) => Ok(h),
        None => Err(ConfigError::InvalidHoleId(id)),
    }
}

/// Whether `id` names a catalog target.
pub open spec fn valid_id(id: u8) -> bool {
    1 <= id <= 8
}

/// Checks every target id of a weighted selection; the first one that names
/// no target is reported.
pub fn validate_hole_ids(ids: &Vec<u8>) -> (r: Result<(), ConfigError>)
    ensures
        r is Ok <==> forall|i: int| 0 <= i < ids@.len() ==> valid_id(#[trigger] ids@[i]),
        r is Err ==> exists|i: int|
            0 <= i < ids@.len() && !valid_id(ids@[i]) && (forall|j: int|
                0 <= j < i ==> valid_id(#[trigger] ids@[j])) && r == Err::<(), ConfigError>(
                ConfigError::InvalidHoleId(ids@[i]),
            ),
{
    let mut i: usize = 0;
    while i < ids.len()
        invariant
            i <= ids.len(),
            forall|j: int| 0 <= j < i ==> valid_id(#[trigger] ids@[j]),
        decreases ids.len() - i,
    {
        let id = ids[i];
        if id < 1 || id > 8 {
            return Err(ConfigError::InvalidHoleId(id));
        }
        i += 1;
    }
    Ok(())
}

} // verus!
