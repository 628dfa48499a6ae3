//! How many integration sub-steps a scheduler tick runs.

use vstd::prelude::*;

verus! {

/// Lattices with fewer rows than this run several sub-steps per tick.
pub const SUBSTEP_HEIGHT_THRESHOLD: usize = 100;

/// Sub-steps per tick on a lattice below the height threshold.
pub const SMALL_LATTICE_SUBSTEPS: usize = 20;

/// Sub-steps that one tick runs under a single write hold: many on a short
/// lattice, to favour throughput, and one otherwise, to favour readers.
pub fn substeps_per_tick(height: usize) -> (r: usize)
    ensures
        r == if height < SUBSTEP_HEIGHT_THRESHOLD {
            SMALL_LATTICE_SUBSTEPS
        } else {
            1
        },
{
    if height < SUBSTEP_HEIGHT_THRESHOLD {
        SMALL_LATTICE_SUBSTEPS
    } else {
        1
    }
}

} // verus!
