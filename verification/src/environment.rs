//! The integer rules of the environment: its calendar, the depletion and
//! recovery of resource patches, the lifetime of threat zones, and the bounded
//! histories it keeps.

use vstd::prelude::*;
use rand::rngs::ThreadRng;
use rand::Rng;

verus! {

/// How many ticks a depleted patch lies dormant before it recovers.
pub const DORMANCY_TICKS: u32 = 20;

/// The shortest lifetime of a threat zone, in ticks.
pub const THREAT_LIFETIME_MIN: u32 = 10;

/// The bound (exclusive) on the lifetime of a threat zone, in ticks.
pub const THREAT_LIFETIME_BOUND: u32 = 30;

/// The most threat zones active at once.
pub const MAX_THREATS: usize = 3;

/// The most entries a history keeps.
pub const HISTORY_WINDOW: usize = 120;

/// `rand::rngs::ThreadRng`, the thread-local generator, carried through opaquely.
#[verifier::external_type_specification]
#[verifier::external_body]
pub struct ExThreadRng(ThreadRng);

/// `rand::Rng::gen_range` on `low..high`: a value drawn in `[low, high)`. The
/// draw depends on the generator's state; the contract states only the range,
/// which the crate documents, and `low < high`, without which it panics.
#[verifier::external_body]
fn gen_range_u32(rng: &mut ThreadRng, low: u32, high: u32) -> (r: u32)
    requires
        low < high,
    ensures
        low <= r < high,
{
    rng.gen_range(low..high)
}

/// The calendar one tick later: the tick advances, and the season phase steps
/// around a cycle of `season_cycle` phases. Returns `(tick, season_phase)`.
pub fn advance_calendar(tick: u32, season_phase: u32, season_cycle: u32) -> (r: (u32, u32))
    requires
        season_cycle > 0,
        tick < u32::MAX,
        season_phase < u32::MAX,
    ensures
        r.0 == tick + 1,
        r.1 == (season_phase + 1) % (season_cycle as int),
        r.1 < season_cycle,
{
    (tick + 1, (season_phase + 1) % season_cycle)
}

/// The season phase `p` after `n` steps around a cycle of `c` phases.
pub open spec fn phase_after(p: int, c: int, n: nat) -> int
    decreases n,
{
    if n == 0 {
        p
    } else {
        (phase_after(p, c, (n - 1) as nat) + 1) % c
    }
}

/// Stepping `n` times adds `n` modulo the cycle.
proof fn lemma_phase_steps(p: int, c: int, n: nat)
    requires
        0 <= p < c,
    ensures
        phase_after(p, c, n) == (p + n) % c,
    decreases n,
{
    if n == 0 {
        vstd::arithmetic::div_mod::lemma_small_mod(p as nat, c as nat);
    } else {
        lemma_phase_steps(p, c, (n - 1) as nat);
        vstd::arithmetic::div_mod::lemma_add_mod_noop(p + n - 1, 1, c);
        vstd::arithmetic::div_mod::lemma_add_mod_noop((p + n - 1) % c, 1, c);
        vstd::arithmetic::div_mod::lemma_mod_twice(p + n - 1, c);
    }
}

/// Seasons are periodic: a phase inside the cycle stays inside it, moves
/// forward by one per step (modulo the cycle), and is back where it started
/// after a whole cycle.
pub proof fn lemma_seasons_periodic(p: int, c: int, n: nat)
    requires
        0 <= p < c,
    ensures
        0 <= phase_after(p, c, n) < c,
        phase_after(p, c, n) == (p + n) % c,
        phase_after(p, c, c as nat) == p,
{
    lemma_phase_steps(p, c, n);
    lemma_phase_steps(p, c, c as nat);
    vstd::arithmetic::div_mod::lemma_mod_add_multiples_vanish(p, c);
    vstd::arithmetic::div_mod::lemma_small_mod(p as nat, c as nat);
}

/// The depletion state of a resource patch.
#[derive(Debug, Clone, Copy, PartialEq, Eq, Structural)]
pub struct PatchState {
    pub depleted: bool,
    pub depletion_tick: u32,
}

/// What happens to a patch's energy at a regeneration step.
#[derive(Debug, Clone, Copy, PartialEq, Eq, Structural)]
pub enum Regrowth {
    /// The patch grows by its regeneration rate.
    Grow,
    /// The patch is depleted and stays empty.
    Dormant,
    /// The patch recovers from depletion with a tenth of its capacity.
    Recover,
}

impl PatchState {
    /// Marks the patch depleted at `tick`.
    pub fn deplete(&mut self, tick: u32)
        ensures
            *final(self) == (PatchState { depleted: true, depletion_tick: tick }),
    {
        self.depleted = true;
        self.depletion_tick = tick;
    }

    /// A regeneration step at `tick`: a healthy patch grows; a depleted patch
    /// recovers once more than `DORMANCY_TICKS` ticks have passed since its
    /// depletion, and lies dormant until then.
    pub fn regenerate(&mut self, tick: u32) -> (r: Regrowth)
        requires
            old(self).depleted ==> old(self).depletion_tick <= tick,
        ensures
            !old(self).depleted ==> r == Regrowth::Grow && *final(self) == *old(self),
            old(self).depleted && tick - old(self).depletion_tick > DORMANCY_TICKS ==> r
                == Regrowth::Recover && *final(self) == (PatchState {
                depleted: false,
                ..*old(self)
            }),
            old(self).depleted && tick - old(self).depletion_tick <= DORMANCY_TICKS ==> r
                == Regrowth::Dormant && *final(self) == *old(self),
    {
        if self.depleted {
            if tick - self.depletion_tick > DORMANCY_TICKS {
                self.depleted = false;
                return Regrowth::Recover;
            }
            return Regrowth::Dormant;
        }
        Regrowth::Grow
    }
}

/// The timing of a threat zone.
#[derive(Debug, Clone, Copy, PartialEq, Eq, Structural)]
pub struct ThreatTimer {
    pub active: bool,
    pub tick_created: u32,
    pub tick_decay: u32,
}

impl ThreatTimer {
    /// A threat zone created at `tick`, whose lifetime is drawn from `rng`
    /// between `THREAT_LIFETIME_MIN` (included) and `THREAT_LIFETIME_BOUND`
    /// (excluded).
    pub fn schedule(tick: u32, rng: &mut ThreadRng) -> (t: ThreatTimer)
        requires
            tick + THREAT_LIFETIME_BOUND - 1 <= u32::MAX,
        ensures
            t.active,
            t.tick_created == tick,
            tick + THREAT_LIFETIME_MIN <= t.tick_decay < tick + THREAT_LIFETIME_BOUND,
    {
        let lifetime = draw_threat_lifetime(rng);
        ThreatTimer::with_lifetime(tick, lifetime)
    }

    /// A threat zone created at `tick` that decays `lifetime` ticks later.
    pub fn with_lifetime(tick: u32, lifetime: u32) -> (t: ThreatTimer)
        requires
            tick + lifetime <= u32::MAX,
        ensures
            t == (ThreatTimer { active: true, tick_created: tick, tick_decay: (tick + lifetime) as u32 }),
    {
        ThreatTimer { active: true, tick_created: tick, tick_decay: tick + lifetime }
    }

    /// At `tick`, a threat zone past its decay tick becomes inactive; it never
    /// becomes active again.
    pub fn refresh(&mut self, tick: u32)
        ensures
            *final(self) == (ThreatTimer {
                active: old(self).active && tick <= old(self).tick_decay,
                ..*old(self)
            }),
    {
        if tick > self.tick_decay {
            self.active = false;
        }
    }
}

/// Draws the lifetime of a new threat zone from `rng`: between
/// `THREAT_LIFETIME_MIN` (included) and `THREAT_LIFETIME_BOUND` (excluded).
pub fn draw_threat_lifetime(rng: &mut ThreadRng) -> (lifetime: u32)
    ensures
        THREAT_LIFETIME_MIN <= lifetime < THREAT_LIFETIME_BOUND,
{
    gen_range_u32(rng, THREAT_LIFETIME_MIN, THREAT_LIFETIME_BOUND)
}

/// Whether another threat zone may appear beside `active_threats` active ones.
pub fn threat_slot_free(active_threats: usize) -> (r: bool)
    ensures
        r == (active_threats < MAX_THREATS),
{
    active_threats < MAX_THREATS
}

/// The list `v` after `x` is appended to it, keeping at most `cap` of the
/// newest entries when it held no more than `cap` before.
pub open spec fn windowed<T>(v: Seq<T>, x: T, cap: nat) -> Seq<T> {
    if v.len() + 1 > cap {
        v.push(x).drop_first()
    } else {
        v.push(x)
    }
}

/// Appends `x` to the history `v`, dropping its oldest entry when it then
/// holds more than `cap` entries.
pub fn push_window<T>(v: &mut Vec<T>, x: T, cap: usize)
    ensures
        final(v)@ == windowed(old(v)@, x, cap as nat),
{
    v.push(x);
    if v.len() > cap {
        v.remove(0);
    }
    proof {
        assert(v@ =~= windowed(old(v)@, x, cap as nat));
    }
}

/// Histories stay bounded and keep the newest entries in order: a history of
/// at most `cap > 0` entries still has at most `cap` after an append, ends
/// with the new entry, and is the tail of the old history followed by it.
pub proof fn lemma_window_bounded<T>(v: Seq<T>, x: T, cap: nat)
    requires
        v.len() <= cap,
        cap > 0,
    ensures
        windowed(v, x, cap).len() <= cap,
        windowed(v, x, cap).last() == x,
        windowed(v, x, cap) =~= v.push(x).skip(v.len() + 1 - windowed(v, x, cap).len()),
{
}

/// Appends `x` to `v` when it holds fewer than `cap` entries; returns whether
/// it did.
pub fn push_capped<T>(v: &mut Vec<T>, x: T, cap: usize) -> (added: bool)
    ensures
        added == (old(v)@.len() < cap),
        added ==> final(v)@ == old(v)@.push(x),
        !added ==> final(v)@ == old(v)@,
{
    if v.len() >= cap {
        return false;
    }
    v.push(x);
    true
}

/// A capped list never grows past its cap.
pub proof fn lemma_capped_bounded<T>(v: Seq<T>, x: T, cap: nat)
    requires
        v.len() <= cap,
    ensures
        (if v.len() < cap {
            v.push(x)
        } else {
            v
        }).len() <= cap,
{
}

} // verus!
