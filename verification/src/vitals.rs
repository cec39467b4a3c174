//! An agent's life-cycle state: liveness, quarantine, replication cooldown and
//! task count, and the decisions taken on it.

use vstd::prelude::*;

verus! {

/// The number of decisions a replicating agent waits before it may replicate again.
pub const REPLICATION_COOLDOWN: u32 = 25;

/// The life-cycle state of an agent.
#[derive(Debug, Clone, Copy, PartialEq, Eq, Structural)]
pub struct Vitals {
    pub alive: bool,
    pub is_rogue: bool,
    pub can_replicate: bool,
    pub replication_cooldown: u32,
    pub tasks_done: u32,
    pub birth_tick: u32,
}

/// What an agent settles on when nothing earlier in its decision fired.
#[derive(Debug, Clone, Copy, PartialEq, Eq, Structural)]
pub enum Settlement {
    Replicate,
    Recharge,
    Idle,
}

/// The state `v` after the bookkeeping at the start of one decision.
pub open spec fn decided(v: Vitals) -> Vitals {
    if !v.alive || v.is_rogue {
        v
    } else if v.replication_cooldown > 0 {
        Vitals {
            replication_cooldown: (v.replication_cooldown - 1) as u32,
            can_replicate: if v.replication_cooldown == 1 {
                true
            } else {
                v.can_replicate
            },
            ..v
        }
    } else {
        v
    }
}

/// The state `v` after its reassessment from one tick's findings.
pub open spec fn assessed(v: Vitals, quarantined: bool, expelled: bool, starved: bool) -> Vitals {
    if !v.alive {
        v
    } else {
        Vitals { is_rogue: quarantined, alive: !(expelled || starved), ..v }
    }
}

/// The state `v` after `n` decisions.
pub open spec fn decided_n(v: Vitals, n: nat) -> Vitals
    decreases n,
{
    if n == 0 {
        v
    } else {
        decided(decided_n(v, (n - 1) as nat))
    }
}

impl Vitals {
    /// The state of an agent born at `birth_tick`: alive, trusted, free to
    /// replicate, with no task done.
    pub fn born(birth_tick: u32) -> (r: Vitals)
        ensures
            r == (Vitals {
                alive: true,
                is_rogue: false,
                can_replicate: true,
                replication_cooldown: 0,
                tasks_done: 0,
                birth_tick,
            }),
    {
        Vitals {
            alive: true,
            is_rogue: false,
            can_replicate: true,
            replication_cooldown: 0,
            tasks_done: 0,
            birth_tick,
        }
    }

    /// Starts a decision: a dead or quarantined agent does not act (the result
    /// is `false` and nothing changes); otherwise one step of the replication
    /// cooldown elapses, and when it runs out replication is allowed again.
    pub fn begin_decision(&mut self) -> (acts: bool)
        ensures
            acts == (old(self).alive && !old(self).is_rogue),
            *final(self) == decided(*old(self)),
    {
        if !self.alive || self.is_rogue {
            return false;
        }
        if self.replication_cooldown > 0 {
            self.replication_cooldown = self.replication_cooldown - 1;
            if self.replication_cooldown == 0 {
                self.can_replicate = true;
            }
        }
        true
    }

    /// The last steps of a decision: replicate when allowed, rich enough
    /// (`energy_for_replication`) and trusted enough (`lambda_for_replication`);
    /// else recharge when `low_energy`; else stay idle.
    pub fn settle(&self, energy_for_replication: bool, lambda_for_replication: bool, low_energy: bool) -> (r:
        Settlement)
        ensures
            r == (if self.can_replicate && energy_for_replication && lambda_for_replication {
                Settlement::Replicate
            } else if low_energy {
                Settlement::Recharge
            } else {
                Settlement::Idle
            }),
    {
        if self.can_replicate && energy_for_replication && lambda_for_replication {
            Settlement::Replicate
        } else if low_energy {
            Settlement::Recharge
        } else {
            Settlement::Idle
        }
    }

    /// Counts one more completed task.
    pub fn record_task(&mut self)
        requires
            old(self).tasks_done < u32::MAX,
        ensures
            *final(self) == (Vitals { tasks_done: (old(self).tasks_done + 1) as u32, ..*old(self) }),
    {
        self.tasks_done = self.tasks_done + 1;
    }

    /// Replicates when allowed and `energy_sufficient`: replication is then
    /// barred for the cooldown. Returns whether replication happened.
    pub fn try_replicate(&mut self, energy_sufficient: bool) -> (replicated: bool)
        ensures
            replicated == (old(self).can_replicate && energy_sufficient),
            replicated ==> *final(self) == (Vitals {
                can_replicate: false,
                replication_cooldown: REPLICATION_COOLDOWN,
                ..*old(self)
            }),
            !replicated ==> *final(self) == *old(self),
    {
        if self.can_replicate && energy_sufficient {
            self.can_replicate = false;
            self.replication_cooldown = REPLICATION_COOLDOWN;
            true
        } else {
            false
        }
    }

    /// Reassesses a living agent from this tick's findings: it is quarantined
    /// exactly while `quarantined` holds, and dies when `expelled` or
    /// `starved`. Returns whether it died now; a dead agent is left as it is.
    pub fn assess(&mut self, quarantined: bool, expelled: bool, starved: bool) -> (died: bool)
        ensures
            died == (old(self).alive && (expelled || starved)),
            *final(self) == assessed(*old(self), quarantined, expelled, starved),
    {
        if !self.alive {
            return false;
        }
        self.is_rogue = quarantined;
        if expelled || starved {
            self.alive = false;
            return true;
        }
        false
    }
}

/// Dead and quarantined agents do not act, and their state does not change.
pub proof fn lemma_inactive_agents_stay(v: Vitals, n: nat)
    requires
        !v.alive || v.is_rogue,
    ensures
        decided_n(v, n) == v,
    decreases n,
{
    if n > 0 {
        lemma_inactive_agents_stay(v, (n - 1) as nat);
    }
}

/// The replication cooldown: an active agent that has just replicated may not
/// replicate during the next `REPLICATION_COOLDOWN - 1` decisions, and may
/// again from the `REPLICATION_COOLDOWN`-th one on.
pub proof fn lemma_replication_cooldown(v: Vitals, n: nat)
    requires
        v.alive,
        !v.is_rogue,
        !v.can_replicate,
        v.replication_cooldown == REPLICATION_COOLDOWN,
        n <= REPLICATION_COOLDOWN,
    ensures
        decided_n(v, n).replication_cooldown == REPLICATION_COOLDOWN - n,
        decided_n(v, n).can_replicate == (n == REPLICATION_COOLDOWN),
        decided_n(v, n).alive,
        !decided_n(v, n).is_rogue,
    decreases n,
{
    if n > 0 {
        lemma_replication_cooldown(v, (n - 1) as nat);
    }
}

/// Quarantine is derived, never latched: a living agent is quarantined after
/// a reassessment exactly when that tick's finding says so, whatever it was
/// before; so an agent found no longer below the threshold recovers.
pub proof fn lemma_quarantine_derived(v: Vitals, quarantined: bool)
    requires
        v.alive,
    ensures
        assessed(v, quarantined, false, false).is_rogue == quarantined,
        assessed(v, quarantined, false, false).alive,
        v.is_rogue && !quarantined ==> !assessed(v, quarantined, false, false).is_rogue,
{
}

/// Death is final: a dead agent stays dead and unchanged through any
/// reassessment and any number of decisions.
pub proof fn lemma_death_is_final(v: Vitals, quarantined: bool, expelled: bool, starved: bool, n: nat)
    requires
        !v.alive,
    ensures
        assessed(v, quarantined, expelled, starved) == v,
        decided_n(v, n) == v,
{
    lemma_inactive_agents_stay(v, n);
}

/// One decision step, field by field: an inactive agent is untouched; an
/// active agent with no cooldown pending is untouched (so an agent that may
/// replicate keeps that right); otherwise the cooldown drops by one, and
/// replication is allowed again exactly when it reaches zero or already was.
/// Liveness, quarantine, tasks and birth tick never change.
pub proof fn lemma_decision_step(v: Vitals)
    ensures
        decided(v).alive == v.alive,
        decided(v).is_rogue == v.is_rogue,
        decided(v).tasks_done == v.tasks_done,
        decided(v).birth_tick == v.birth_tick,
        !v.alive || v.is_rogue || v.replication_cooldown == 0 ==> decided(v) == v,
        v.alive && !v.is_rogue && v.replication_cooldown > 0 ==> {
            &&& decided(v).replication_cooldown + 1 == v.replication_cooldown
            &&& decided(v).can_replicate == (v.can_replicate || v.replication_cooldown == 1)
        },
{
}

} // verus!
