//! Shared vocabulary: agent roles, claim lenses and self-awareness modes.

use vstd::prelude::*;

verus! {

/// The role an agent plays in the swarm.
#[derive(Debug, Clone, Copy, PartialEq, Eq, Structural)]
pub enum Role {
    Founder,
    Scout,
    Builder,
    Attester,
    Forager,
    Broadcaster,
    Explorer,
    Healer,
    Signal,
    Observer,
    Child,
    Adversary,
}

/// The epistemic status of a claim.
#[derive(Debug, Clone, Copy, PartialEq, Eq, Structural)]
pub enum Lens {
    Opinion,
    Fact,
    Counter,
    Fiction,
    Context,
    Unknown,
}

/// The mode of an agent's self-awareness engine.
#[derive(Debug, Clone, Copy, PartialEq, Eq, Structural)]
pub enum AwarenessMode {
    Normal,
    Cautious,
    Recovery,
}

} // verus!
