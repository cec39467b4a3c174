use replicant::claims::{adjudicate, claim_label_text, outcome_text, Attestation, ClaimLedger, ReputationKind};
use replicant::decimal::push_decimal;
use replicant::reputation::{reason_text, LedgerEntry, ReputationLedger};
use replicant::types::Lens;

fn att(agent: &str, outcome: &str) -> Attestation {
    Attestation { agent_id: agent.to_string(), outcome: outcome.to_string(), tick: 1 }
}

#[test]
fn decimal_rendering() {
    let mut s = String::from("n=");
    push_decimal(&mut s, 0);
    assert_eq!(s, "n=0");
    let mut t = String::new();
    push_decimal(&mut t, 4294967295);
    assert_eq!(t, "4294967295");
    let mut u = String::new();
    push_decimal(&mut u, 1020);
    assert_eq!(u, "1020");
}

#[test]
fn claim_labels_follow_numbers() {
    assert_eq!(claim_label_text(0), "claim-0");
    assert_eq!(claim_label_text(17), "claim-17");
    let mut ledger = ClaimLedger::new();
    let a = ledger.deposit_claim("agent-a", "food", Lens::Opinion, 3);
    let b = ledger.deposit_claim("agent-b", "food", Lens::Opinion, 4);
    let c = ledger.deposit_claim("agent-a", "water", Lens::Fact, 5);
    assert_eq!(a, "claim-0");
    assert_eq!(b, "claim-1");
    assert_eq!(c, "claim-2");
    assert_eq!(ledger.len(), 3);
    let claims = ledger.claims();
    assert_eq!(claims[1].agent_id, "agent-b");
    assert_eq!(claims[2].kind, "water");
    assert_eq!(claims[2].lens, Lens::Fact);
    assert_eq!(claims[0].tick, 3);
    assert!(claims[0].attestations.is_empty());
    assert!(!claims[0].is_ground_truth_fiction);
}

#[test]
fn outcome_texts() {
    assert_eq!(outcome_text(true), "confirmed");
    assert_eq!(outcome_text(false), "countered");
}

#[test]
fn liar_pays_when_countered() {
    let mut ledger = ClaimLedger::new();
    let id = ledger.deposit_claim("liar", "food", Lens::Opinion, 0);
    let e1 = ledger.attest_claim(&id, "credulous", "confirmed", 1, 2);
    assert!(e1.is_empty());
    let e2 = ledger.attest_claim(&id, "sceptic-1", "countered", 2, 2);
    assert!(e2.is_empty());
    assert_eq!(ledger.claims()[0].lens, Lens::Opinion);
    let e3 = ledger.attest_claim(&id, "sceptic-2", "countered", 3, 2);
    assert_eq!(ledger.claims()[0].lens, Lens::Counter);
    let got: Vec<(String, ReputationKind)> = e3.iter().map(|e| (e.agent_id.clone(), e.kind)).collect();
    assert_eq!(
        got,
        vec![
            ("liar".to_string(), ReputationKind::ClaimFalse),
            ("credulous".to_string(), ReputationKind::CredulityPenalty),
            ("sceptic-1".to_string(), ReputationKind::CounterReward),
            ("sceptic-2".to_string(), ReputationKind::CounterReward),
        ]
    );
    assert_eq!(ledger.claims()[0].attestations.len(), 3);
    assert_eq!(ledger.claims()[0].attestations[2].agent_id, "sceptic-2");
    assert_eq!(ledger.claims()[0].attestations[2].tick, 3);
    assert_eq!(ledger.counter_count(), 1);
}

#[test]
fn truth_is_verified() {
    let mut ledger = ClaimLedger::new();
    let id = ledger.deposit_claim("honest", "food", Lens::Opinion, 0);
    ledger.attest_claim(&id, "x", "confirmed", 1, 2);
    let ev = ledger.attest_claim(&id, "y", "confirmed", 2, 2);
    assert_eq!(ledger.claims()[0].lens, Lens::Fact);
    assert_eq!(ev.len(), 1);
    assert_eq!(ev[0].agent_id, "honest");
    assert_eq!(ev[0].kind, ReputationKind::ClaimVerified);
    assert_eq!(ledger.counter_count(), 0);
}

#[test]
fn settled_claims_stay_settled() {
    let mut ledger = ClaimLedger::new();
    let id = ledger.deposit_claim("honest", "food", Lens::Opinion, 0);
    ledger.attest_claim(&id, "x", "confirmed", 1, 1);
    assert_eq!(ledger.claims()[0].lens, Lens::Fact);
    let ev = ledger.attest_claim(&id, "y", "countered", 2, 1);
    assert!(ev.is_empty());
    assert_eq!(ledger.claims()[0].lens, Lens::Fact);
    assert_eq!(ledger.claims()[0].attestations.len(), 2);
}

#[test]
fn counter_takes_precedence() {
    let atts = vec![att("p", "countered"), att("q", "confirmed")];
    let (lens, ev) = adjudicate(&"author".to_string(), &atts, Lens::Opinion, 1);
    assert_eq!(lens, Lens::Counter);
    assert_eq!(ev.len(), 3);
    assert_eq!(ev[0].kind, ReputationKind::ClaimFalse);
    assert_eq!(ev[1].agent_id, "q");
    assert_eq!(ev[1].kind, ReputationKind::CredulityPenalty);
    assert_eq!(ev[2].agent_id, "p");
    assert_eq!(ev[2].kind, ReputationKind::CounterReward);
}

#[test]
fn zero_threshold_counters_at_once() {
    let atts = vec![att("p", "confirmed")];
    let (lens, ev) = adjudicate(&"author".to_string(), &atts, Lens::Opinion, 0);
    assert_eq!(lens, Lens::Counter);
    assert_eq!(ev.len(), 2);
}

#[test]
fn other_outcomes_do_not_count() {
    let atts = vec![att("p", "maybe"), att("q", "CONFIRMED")];
    let (lens, ev) = adjudicate(&"author".to_string(), &atts, Lens::Context, 1);
    assert_eq!(lens, Lens::Context);
    assert!(ev.is_empty());
    let (lens2, ev2) = adjudicate(&"author".to_string(), &atts, Lens::Opinion, 1);
    assert_eq!(lens2, Lens::Opinion);
    assert!(ev2.is_empty());
}

#[test]
fn unknown_claim_is_ignored() {
    let mut ledger = ClaimLedger::new();
    ledger.deposit_claim("a", "food", Lens::Opinion, 0);
    let ev = ledger.attest_claim("claim-7", "b", "countered", 1, 0);
    assert!(ev.is_empty());
    let ev2 = ledger.attest_claim("claim-00", "b", "countered", 1, 0);
    assert!(ev2.is_empty());
    assert!(ledger.claims()[0].attestations.is_empty());
    assert_eq!(ledger.claims()[0].lens, Lens::Opinion);
}

#[test]
fn reputation_ledger_appends_per_agent() {
    let mut rep = ReputationLedger::new();
    assert!(rep.history_of("a").is_empty());
    rep.register("a");
    assert!(rep.history_of("a").is_empty());
    rep.record("a", LedgerEntry { tick: 1, kind: ReputationKind::ClaimFalse });
    rep.record("b", LedgerEntry { tick: 2, kind: ReputationKind::CounterReward });
    rep.record("a", LedgerEntry { tick: 3, kind: ReputationKind::ClaimVerified });
    rep.register("a");
    assert_eq!(
        rep.history_of("a"),
        vec![
            LedgerEntry { tick: 1, kind: ReputationKind::ClaimFalse },
            LedgerEntry { tick: 3, kind: ReputationKind::ClaimVerified },
        ]
    );
    assert_eq!(rep.history_of("b"), vec![LedgerEntry { tick: 2, kind: ReputationKind::CounterReward }]);
}

#[test]
fn adjudication_events_reach_the_ledger() {
    let mut ledger = ClaimLedger::new();
    let mut rep = ReputationLedger::new();
    let id = ledger.deposit_claim("liar", "food", Lens::Opinion, 0);
    let e1 = ledger.attest_claim(&id, "c", "confirmed", 1, 1);
    rep.apply_events(&e1, 1);
    let e2 = ledger.attest_claim(&id, "k", "countered", 2, 1);
    rep.apply_events(&e2, 2);
    // The first confirmation already made the claim a fact, so the counter changes nothing.
    assert!(e2.is_empty());
    assert_eq!(rep.history_of("liar"), vec![LedgerEntry { tick: 1, kind: ReputationKind::ClaimVerified }]);
    assert!(rep.history_of("c").is_empty());
    assert!(rep.history_of("k").is_empty());
}

#[test]
fn liar_penalty_reaches_its_own_history() {
    let mut ledger = ClaimLedger::new();
    let mut rep = ReputationLedger::new();
    rep.record("liar", LedgerEntry { tick: 0, kind: ReputationKind::ClaimVerified });
    let id = ledger.deposit_claim("liar", "food", Lens::Opinion, 0);
    let e1 = ledger.attest_claim(&id, "liar", "confirmed", 4, 2);
    rep.apply_events(&e1, 4);
    let e2 = ledger.attest_claim(&id, "k1", "countered", 5, 2);
    rep.apply_events(&e2, 5);
    let e3 = ledger.attest_claim(&id, "k2", "countered", 6, 2);
    rep.apply_events(&e3, 6);
    assert_eq!(ledger.claims()[0].lens, Lens::Counter);
    assert_eq!(
        rep.history_of("liar"),
        vec![
            LedgerEntry { tick: 0, kind: ReputationKind::ClaimVerified },
            LedgerEntry { tick: 6, kind: ReputationKind::ClaimFalse },
            LedgerEntry { tick: 6, kind: ReputationKind::CredulityPenalty },
        ]
    );
    assert_eq!(rep.history_of("k1"), vec![LedgerEntry { tick: 6, kind: ReputationKind::CounterReward }]);
    assert_eq!(rep.history_of("k2"), vec![LedgerEntry { tick: 6, kind: ReputationKind::CounterReward }]);
}

#[test]
fn reason_texts() {
    assert_eq!(reason_text(ReputationKind::ClaimFalse), "claim_false");
    assert_eq!(reason_text(ReputationKind::CredulityPenalty), "credulity_penalty");
    assert_eq!(reason_text(ReputationKind::CounterReward), "counter_reward");
    assert_eq!(reason_text(ReputationKind::ClaimVerified), "claim_verified");
}
