//! The packed cell of a pixel: how fast the point escaped, and how far.
//!
//! A cell has 32 bits. The low 16 bits hold the iteration count. The high 16
//! bits hold the squared magnitude at the end of the iteration, scaled by
//! `MAGNITUDE_SCALE`, raised by `MAGNITUDE_BIAS` and limited to 16 bits.

use vstd::prelude::*;

verus! {

/// Largest value of either half of a cell.
pub const CELL_MAX: u32 = 65535;

/// Factor by which a squared magnitude is scaled before it is stored.
pub const MAGNITUDE_SCALE: u32 = 256;

/// What is added to a scaled magnitude before it is stored.
pub const MAGNITUDE_BIAS: u32 = 127 * 255;

/// Iteration ceiling of a view that sets none.
pub const DEFAULT_MAX_ITER: usize = 320;

/// The cell that holds an iteration count and a stored magnitude.
pub open spec fn cell_of(iterations: int, magnitude: int) -> int {
    iterations + 65536 * magnitude
}

/// `x` limited to what half a cell holds.
pub open spec fn clamp_to_cell(x: int) -> int {
    if x < 0 {
        0
    } else if x > 65535 {
        65535
    } else {
        x
    }
}

/// Limits a scaled and biased magnitude to what the high half of a cell
/// holds.
pub fn clamp_magnitude(biased: i64) -> (stored: u16)
    ensures
        stored == clamp_to_cell(biased as int),
{
    if biased < 0 {
        0
    } else if biased > 65535 {
        65535
    } else {
        biased as u16
    }
}

/// Packs an iteration count and a stored magnitude into a cell.
pub fn pack_cell(iterations: u16, magnitude: u16) -> (cell: u32)
    ensures
        cell == cell_of(iterations as int, magnitude as int),
{
    let low: u32 = iterations as u32;
    let high: u32 = magnitude as u32;
    let cell: u32 = low | (high << 16);
    proof {
        assert(low | (high << 16) == low + 65536 * high) by (bit_vector)
            requires
                low <= 65535,
                high <= 65535,
        ;
    }
    cell
}

/// The iteration count of a cell.
pub fn cell_iterations(cell: u32) -> (iterations: u16)
    ensures
        iterations == cell % 65536,
{
    let low: u32 = cell & 0xffff;
    proof {
        assert(cell & 0xffff == cell % 65536) by (bit_vector);
    }
    low as u16
}

/// The stored magnitude of a cell.
pub fn cell_magnitude(cell: u32) -> (magnitude: u16)
    ensures
        magnitude == cell / 65536,
{
    let high: u32 = cell >> 16;
    proof {
        assert(cell >> 16 == cell / 65536) by (bit_vector);
        assert(cell >> 16 <= 65535) by (bit_vector);
    }
    high as u16
}

/// The cell of a pixel whose iteration ended after `iterations` steps with a
/// scaled and biased magnitude of `biased_magnitude`.
pub fn encode_cell(iterations: usize, biased_magnitude: i64) -> (cell: u32)
    requires
        iterations <= CELL_MAX,
    ensures
        cell == cell_of(iterations as int, clamp_to_cell(biased_magnitude as int)),
{
    pack_cell(iterations as u16, clamp_magnitude(biased_magnitude))
}

/// A cell gives back the two halves it was packed from.
pub proof fn lemma_cell_round_trip(iterations: int, magnitude: int)
    requires
        0 <= iterations <= 65535,
        0 <= magnitude <= 65535,
    ensures
        0 <= cell_of(iterations, magnitude) <= u32::MAX,
        cell_of(iterations, magnitude) % 65536 == iterations,
        cell_of(iterations, magnitude) / 65536 == magnitude,
{
}

} // verus!
