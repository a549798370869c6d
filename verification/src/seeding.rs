//! The seed generator: an initial set of live coordinates, drawn by
//! rejection sampling from the quadrant `[0, HALF_LEN) x [0, HALF_LEN)`.
//!
//! Duplicate draws are absorbed silently and do not count toward the
//! target, so the sampling loop runs until the set has grown to the
//! requested cardinality. Verified code must terminate, so the draws are
//! capped at `u64::MAX`; a run that exhausted the cap (never observed in
//! practice, and astronomically unlikely) falls back to filling the seed
//! deterministically from the start of the sub-range.

use vstd::prelude::*;
use crate::grid::HALF_LEN;
use crate::grid::contains_coord;
use crate::grid::seq_has;

verus! {

/// The number of cells the initial seed makes alive: `HALF_LEN` squared,
/// a quarter of the grid.
pub const INIT_ALIVE_COUNT: usize = 1600;

/// The number of coordinates in the sampling sub-range
/// `[0, HALF_LEN) x [0, HALF_LEN)`: `HALF_LEN` squared.
pub const SEED_DOMAIN: usize = 1600;

/// Relies on rand::random: draws a `u32` from the thread-local generator.
/// Nothing is promised of the value.
#[verifier::external_body]
fn random_u32() -> u32 {
    rand::random::<u32>()
}

/// The first `target` coordinates of the sampling sub-range, in row order.
/// Used only if the sampling loop ever exhausted its draw budget.
fn deterministic_seed(target: usize) -> (v: Vec<(i32, i32)>)
    requires
        target <= SEED_DOMAIN,
    ensures
        v@.len() == target,
        forall|j: int|
            0 <= j < v@.len() ==> 0 <= (#[trigger] v@[j]).0 < HALF_LEN && 0 <= v@[j].1 < HALF_LEN,
        forall|j: int, k: int| 0 <= j < k < v@.len() ==> v@[j] != v@[k],
{
    let mut v: Vec<(i32, i32)> = Vec::new();
    let mut p: usize = 0;
    while p < SEED_DOMAIN
        invariant
            p <= SEED_DOMAIN,
            target <= SEED_DOMAIN,
            v@.len() == if target <= p {
                target as int
            } else {
                p as int
            },
            forall|j: int|
                0 <= j < v@.len() ==> (#[trigger] v@[j]).0 as int == j / (HALF_LEN as int)
                    && v@[j].1 as int == j % (HALF_LEN as int),
        decreases SEED_DOMAIN - p,
    {
        if v.len() < target {
            v.push(((p / (HALF_LEN as usize)) as i32, (p % (HALF_LEN as usize)) as i32));
        }
        p = p + 1;
    }
    v
}

/// Draw a seed of exactly `target` distinct coordinates, each in
/// `[0, HALF_LEN) x [0, HALF_LEN)`, by rejection sampling.
///
/// A target larger than the sampling domain could never be reached, so it
/// is rejected up front rather than looped on forever.
pub fn seed(target: usize) -> (r: Option<Vec<(i32, i32)>>)
    ensures
        (r is Some) == (target <= SEED_DOMAIN),
        match r {
            Some(v) => {
                &&& v@.len() == target
                &&& forall|j: int|
                    0 <= j < v@.len() ==> 0 <= (#[trigger] v@[j]).0 < HALF_LEN && 0 <= v@[j].1
                        < HALF_LEN
                &&& forall|j: int, k: int| 0 <= j < k < v@.len() ==> v@[j] != v@[k]
            },
            None => target > SEED_DOMAIN,
        },
{
    if target > SEED_DOMAIN {
        return None;
    }
    let mut v: Vec<(i32, i32)> = Vec::new();
    let mut budget: u64 = 0xFFFF_FFFF_FFFF_FFFF;
    while budget > 0 && v.len() < target
        invariant
            v@.len() <= target,
            forall|j: int|
                0 <= j < v@.len() ==> 0 <= (#[trigger] v@[j]).0 < HALF_LEN && 0 <= v@[j].1
                    < HALF_LEN,
            forall|j: int, k: int| 0 <= j < k < v@.len() ==> v@[j] != v@[k],
        decreases budget,
    {
        budget = budget - 1;
        let rx = random_u32();
        let ry = random_u32();
        let x = (rx % (HALF_LEN as u32)) as i32;
        let y = (ry % (HALF_LEN as u32)) as i32;
        if !contains_coord(&v, x, y) {
            proof {
                assert forall|j: int| 0 <= j < v@.len() implies (#[trigger] v@[j]) != (x, y) by {
                    assert(!seq_has(v@, x as int, y as int));
                }
            }
            v.push((x, y));
        }
    }
    if v.len() < target {
        v = deterministic_seed(target);
    }
    Some(v)
}

} // verus!
