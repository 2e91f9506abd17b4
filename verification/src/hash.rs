//! Deterministic per-cell hashing used by the presentation layer.

use vstd::prelude::*;
use crate::seed::wmul;

verus! {

/// The SplitMix-style mix of cell coordinates `(x, y)` with `seed`.
pub open spec fn hash_cell_spec(x: u64, y: u64, seed: u64) -> u64 {
    let v0 = seed ^ wmul(x, 0x9e3779b97f4a7c15) ^ wmul(y, 0xbf58476d1ce4e5b9);
    let v1 = v0 ^ (v0 >> 30u64);
    let v2 = wmul(v1, 0xbf58476d1ce4e5b9);
    let v3 = v2 ^ (v2 >> 27u64);
    let v4 = wmul(v3, 0x94d049bb133111eb);
    v4 ^ (v4 >> 31u64)
}

/// Hashes terminal-cell coordinates with a seed.
pub fn hash_cell(x: usize, y: usize, seed: u64) -> (h: u64)
    ensures
        h == hash_cell_spec(x as u64, y as u64, seed),
{
    let mut value = seed;
    value = value ^ (x as u64).wrapping_mul(0x9e3779b97f4a7c15);
    value = value ^ (y as u64).wrapping_mul(0xbf58476d1ce4e5b9);
    value = value ^ (value >> 30);
    value = value.wrapping_mul(0xbf58476d1ce4e5b9);
    value = value ^ (value >> 27);
    value = value.wrapping_mul(0x94d049bb133111eb);
    value ^ (value >> 31)
}

} // verus!
