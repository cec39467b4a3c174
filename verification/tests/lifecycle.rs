use replicant::adversary::{tally, AdversaryStatus, MAX_ADVERSARIES};
use replicant::environment::{
    advance_calendar, draw_threat_lifetime, push_capped, push_window, threat_slot_free, PatchState, Regrowth, ThreatTimer,
    HISTORY_WINDOW, MAX_THREATS,
};
use replicant::vitals::{Settlement, Vitals, REPLICATION_COOLDOWN};

#[test]
fn newborn_vitals() {
    let v = Vitals::born(7);
    assert!(v.alive && !v.is_rogue && v.can_replicate);
    assert_eq!(v.replication_cooldown, 0);
    assert_eq!(v.tasks_done, 0);
    assert_eq!(v.birth_tick, 7);
}

#[test]
fn replication_cooldown_lasts_twenty_five_decisions() {
    let mut v = Vitals::born(0);
    assert!(v.try_replicate(true));
    assert!(!v.can_replicate);
    assert_eq!(v.replication_cooldown, REPLICATION_COOLDOWN);
    assert!(!v.try_replicate(true));
    for _ in 0..24 {
        assert!(v.begin_decision());
        assert!(!v.can_replicate);
    }
    assert!(v.begin_decision());
    assert!(v.can_replicate);
    assert_eq!(v.replication_cooldown, 0);
    assert!(!v.try_replicate(false));
    assert!(v.can_replicate);
}

#[test]
fn inactive_agents_do_not_act() {
    let mut v = Vitals::born(0);
    v.try_replicate(true);
    v.is_rogue = true;
    let before = v;
    assert!(!v.begin_decision());
    assert_eq!(v, before);
    v.is_rogue = false;
    v.alive = false;
    assert!(!v.begin_decision());
    assert_eq!(v.replication_cooldown, REPLICATION_COOLDOWN);
}

#[test]
fn settlement_priority() {
    let v = Vitals::born(0);
    assert_eq!(v.settle(true, true, true), Settlement::Replicate);
    assert_eq!(v.settle(true, false, true), Settlement::Recharge);
    assert_eq!(v.settle(false, true, false), Settlement::Idle);
    let mut w = v;
    w.try_replicate(true);
    assert_eq!(w.settle(true, true, false), Settlement::Idle);
}

#[test]
fn tasks_are_counted() {
    let mut v = Vitals::born(0);
    v.record_task();
    v.record_task();
    assert_eq!(v.tasks_done, 2);
}

#[test]
fn quarantine_is_derived() {
    let mut v = Vitals::born(0);
    assert!(!v.assess(true, false, false));
    assert!(v.is_rogue && v.alive);
    assert!(!v.assess(false, false, false));
    assert!(!v.is_rogue && v.alive);
    assert!(v.assess(true, true, false));
    assert!(!v.alive);
    let dead = v;
    assert!(!v.assess(false, false, true));
    assert_eq!(v, dead);
    let mut s = Vitals::born(0);
    assert!(s.assess(false, false, true));
    assert!(!s.alive);
}

#[test]
fn calendar_cycles() {
    assert_eq!(advance_calendar(0, 0, 50), (1, 1));
    assert_eq!(advance_calendar(9, 49, 50), (10, 0));
    let (mut t, mut p) = (0u32, 7u32);
    for _ in 0..50 {
        let r = advance_calendar(t, p, 50);
        t = r.0;
        p = r.1;
        assert!(p < 50);
    }
    assert_eq!((t, p), (50, 7));
}

#[test]
fn patches_recover_after_dormancy() {
    let mut p = PatchState { depleted: false, depletion_tick: 0 };
    assert_eq!(p.regenerate(5), Regrowth::Grow);
    p.deplete(10);
    assert_eq!(p, PatchState { depleted: true, depletion_tick: 10 });
    assert_eq!(p.regenerate(30), Regrowth::Dormant);
    assert!(p.depleted);
    assert_eq!(p.regenerate(31), Regrowth::Recover);
    assert!(!p.depleted);
    assert_eq!(p.regenerate(32), Regrowth::Grow);
}

#[test]
fn threats_decay() {
    let mut rng = rand::thread_rng();
    for tick in [0u32, 5, 1000] {
        let mut t = ThreatTimer::schedule(tick, &mut rng);
        assert!(t.active);
        assert_eq!(t.tick_created, tick);
        assert!(t.tick_decay >= tick + 10 && t.tick_decay < tick + 30);
        let decay = t.tick_decay;
        t.refresh(decay);
        assert!(t.active);
        t.refresh(decay + 1);
        assert!(!t.active);
        t.refresh(tick);
        assert!(!t.active);
    }
    let late = ThreatTimer::schedule(u32::MAX - 29, &mut rng);
    assert!(late.tick_decay >= u32::MAX - 19);
    assert!(threat_slot_free(2));
    assert!(!threat_slot_free(MAX_THREATS));
}

#[test]
fn histories_are_windowed() {
    let mut h: Vec<u32> = Vec::new();
    for i in 0..130u32 {
        push_window(&mut h, i, HISTORY_WINDOW);
        assert!(h.len() <= HISTORY_WINDOW);
        assert_eq!(*h.last().unwrap(), i);
    }
    assert_eq!(h.len(), 120);
    assert_eq!(h[0], 10);
    assert_eq!(h[119], 129);
}

#[test]
fn adversaries_are_capped() {
    let mut v: Vec<u8> = Vec::new();
    for i in 0..8u8 {
        let added = push_capped(&mut v, i, MAX_ADVERSARIES);
        assert_eq!(added, i < 5);
    }
    assert_eq!(v, vec![0, 1, 2, 3, 4]);
}

#[test]
fn adversary_tally_counts() {
    let s = vec![
        AdversaryStatus { alive: true, quarantined: true, malicious_acts: 4 },
        AdversaryStatus { alive: true, quarantined: false, malicious_acts: 2 },
        AdversaryStatus { alive: false, quarantined: false, malicious_acts: 1 },
    ];
    let t = tally(&s);
    assert_eq!(t.total_spawned, 3);
    assert_eq!(t.alive, 2);
    assert_eq!(t.detected, 1);
    assert_eq!(t.undetected, 1);
    assert_eq!(t.total_malicious_acts, 7);
    let e = tally(&Vec::new());
    assert_eq!((e.total_spawned, e.alive, e.detected, e.undetected, e.total_malicious_acts), (0, 0, 0, 0, 0));
}

#[test]
fn threat_timer_from_lifetime() {
    let t = ThreatTimer::with_lifetime(40, 12);
    assert_eq!(t, ThreatTimer { active: true, tick_created: 40, tick_decay: 52 });
    let edge = ThreatTimer::with_lifetime(u32::MAX - 10, 10);
    assert_eq!(edge.tick_decay, u32::MAX);
    let mut rng = rand::thread_rng();
    for _ in 0..50 {
        let l = draw_threat_lifetime(&mut rng);
        assert!((10..30).contains(&l));
    }
}
