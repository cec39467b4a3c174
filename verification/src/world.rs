//! The configuration of a simulated world.

use vstd::prelude::*;

verus! {

/// Configuration for the world.
#[derive(Debug, Clone, Copy, PartialEq, Eq, Structural)]
pub struct WorldConfig {
    pub seed: u64,
    pub ticks: u32,
    pub commit_attestations: u32,
    pub n_patches: usize,
}

impl Default for WorldConfig {
    /// Seed 42, 200 ticks, two attestations to settle a claim, ten patches.
    fn default() -> (r: WorldConfig)
        ensures
            r == (WorldConfig { seed: 42, ticks: 200, commit_attestations: 2, n_patches: 10 }),
    {
        WorldConfig { seed: 42, ticks: 200, commit_attestations: 2, n_patches: 10 }
    }
}

} // verus!
