//! The claim ledger: numbering of deposited claims, attestation, and the
//! adjudication rule by which a claim becomes a fact or is countered.

use vstd::prelude::*;
use crate::decimal::{decimal, lemma_decimal_injective, push_decimal};
use crate::types::Lens;

verus! {

/// The outcome text of an attestation that confirms a claim.
pub open spec fn confirmed_text() -> Seq<char> {
    "confirmed"@
}

/// The outcome text of an attestation that counters a claim.
pub open spec fn countered_text() -> Seq<char> {
    "countered"@
}

/// The outcome text an agent attests with: confirmation when it found the
/// claimed resource present, counter otherwise.
pub fn outcome_text(resource_present: bool) -> (s: String)
    ensures
        s@ == (if resource_present {
            confirmed_text()
        } else {
            countered_text()
        }),
{
    if resource_present {
        String::from_str("confirmed")
    } else {
        String::from_str("countered")
    }
}

/// The label of the claim numbered `n`: `claim-` followed by `n` in decimal.
pub open spec fn claim_label(n: nat) -> Seq<char> {
    "claim-"@ + decimal(n)
}

/// Distinct claim numbers have distinct labels.
pub proof fn lemma_claim_label_injective(a: nat, b: nat)
    requires
        claim_label(a) == claim_label(b),
    ensures
        a == b,
{
    let p = "claim-"@;
    assert(claim_label(a).skip(p.len() as int) =~= decimal(a));
    assert(claim_label(b).skip(p.len() as int) =~= decimal(b));
    lemma_decimal_injective(a, b);
}

/// One agent's verdict on a claim.
#[derive(Debug, Clone)]
pub struct Attestation {
    pub agent_id: String,
    pub outcome: String,
    pub tick: u32,
}

/// The mathematical content of an attestation.
pub struct AttestationView {
    pub agent_id: Seq<char>,
    pub outcome: Seq<char>,
    pub tick: u32,
}

impl View for Attestation {
    type V = AttestationView;

    open spec fn view(&self) -> AttestationView {
        AttestationView { agent_id: self.agent_id@, outcome: self.outcome@, tick: self.tick }
    }
}

/// Why an agent's reputation ledger receives an event.
#[derive(Debug, Clone, Copy, PartialEq, Eq, Structural)]
pub enum ReputationKind {
    /// The agent authored a claim that was countered.
    ClaimFalse,
    /// The agent confirmed a claim that was countered.
    CredulityPenalty,
    /// The agent countered a claim that was countered.
    CounterReward,
    /// The agent authored a claim that became a fact.
    ClaimVerified,
}

/// A reputation consequence of an adjudication, for one agent.
#[derive(Debug)]
pub struct ReputationEvent {
    pub agent_id: String,
    pub kind: ReputationKind,
}

/// The mathematical content of a reputation event.
pub struct ReputationEventView {
    pub agent_id: Seq<char>,
    pub kind: ReputationKind,
}

impl View for ReputationEvent {
    type V = ReputationEventView;

    open spec fn view(&self) -> ReputationEventView {
        ReputationEventView { agent_id: self.agent_id@, kind: self.kind }
    }
}

/// The number of attestations in `atts` whose outcome is `outcome`.
pub open spec fn outcome_count(atts: Seq<AttestationView>, outcome: Seq<char>) -> nat
    decreases atts.len(),
{
    if atts.len() == 0 {
        0
    } else {
        outcome_count(atts.drop_last(), outcome) + if atts.last().outcome == outcome {
            1nat
        } else {
            0nat
        }
    }
}

/// One event of kind `kind` for each attestation of `atts` whose outcome is
/// `outcome`, in attestation order.
pub open spec fn events_for(
    atts: Seq<AttestationView>,
    outcome: Seq<char>,
    kind: ReputationKind,
) -> Seq<ReputationEventView>
    decreases atts.len(),
{
    if atts.len() == 0 {
        seq![]
    } else {
        let rest = events_for(atts.drop_last(), outcome, kind);
        if atts.last().outcome == outcome {
            rest.push(ReputationEventView { agent_id: atts.last().agent_id, kind })
        } else {
            rest
        }
    }
}

/// Whether a claim with lens `lens` and attestations `atts` is countered:
/// only opinions are judged, an opinion is countered once `required` counters
/// are in, and this rule is tried before the confirmation rule.
pub open spec fn countered_now(atts: Seq<AttestationView>, lens: Lens, required: nat) -> bool {
    lens == Lens::Opinion && outcome_count(atts, countered_text()) >= required
}

/// Whether an opinion becomes a fact: it is not countered, and `required`
/// confirmations are in.
pub open spec fn confirmed_now(atts: Seq<AttestationView>, lens: Lens, required: nat) -> bool {
    &&& !countered_now(atts, lens, required)
    &&& lens == Lens::Opinion
    &&& outcome_count(atts, confirmed_text()) >= required
}

/// The lens of a claim after adjudication over its attestations `atts`.
pub open spec fn adjudicated_lens(atts: Seq<AttestationView>, lens: Lens, required: nat) -> Lens {
    if countered_now(atts, lens, required) {
        Lens::Counter
    } else if confirmed_now(atts, lens, required) {
        Lens::Fact
    } else {
        lens
    }
}

/// The reputation events of an adjudication, in the order they are applied:
/// when countered, the author's penalty, then a credulity penalty for each
/// confirmer, then a reward for each counterer; when confirmed, the author's
/// verification; otherwise none.
pub open spec fn adjudication_events(
    author: Seq<char>,
    atts: Seq<AttestationView>,
    lens: Lens,
    required: nat,
) -> Seq<ReputationEventView> {
    if countered_now(atts, lens, required) {
        seq![ReputationEventView { agent_id: author, kind: ReputationKind::ClaimFalse }]
            + events_for(atts, confirmed_text(), ReputationKind::CredulityPenalty)
            + events_for(atts, countered_text(), ReputationKind::CounterReward)
    } else if confirmed_now(atts, lens, required) {
        seq![ReputationEventView { agent_id: author, kind: ReputationKind::ClaimVerified }]
    } else {
        seq![]
    }
}


/// The views of a sequence of attestations.
pub open spec fn attestation_views(v: Seq<Attestation>) -> Seq<AttestationView> {
    v.map_values(|a: Attestation| a@)
}

/// The views of a sequence of reputation events.
pub open spec fn event_views(v: Seq<ReputationEvent>) -> Seq<ReputationEventView> {
    v.map_values(|e: ReputationEvent| e@)
}

/// Counts the attestations of `atts` whose outcome text is `outcome`.
fn count_outcome(atts: &Vec<Attestation>, outcome: &String) -> (n: usize)
    ensures
        n == outcome_count(attestation_views(atts@), outcome@),
{
    let ghost views = attestation_views(atts@);
    let mut n: usize = 0;
    let mut i: usize = 0;
    while i < atts.len()
        invariant
            0 <= i <= atts.len(),
            views == attestation_views(atts@),
            n == outcome_count(views.take(i as int), outcome@),
            n <= i,
        decreases atts.len() - i,
    {
        assert(views.take(i + 1).drop_last() =~= views.take(i as int));
        if atts[i].outcome == *outcome {
            n = n + 1;
        }
        i = i + 1;
    }
    assert(views.take(atts.len() as int) =~= views);
    n
}

/// Appends to `events` one event of kind `kind` for each attestation of `atts`
/// whose outcome text is `outcome`.
fn push_events_for(
    events: &mut Vec<ReputationEvent>,
    atts: &Vec<Attestation>,
    outcome: &String,
    kind: ReputationKind,
)
    ensures
        event_views(final(events)@) == event_views(old(events)@) + events_for(
            attestation_views(atts@),
            outcome@,
            kind,
        ),
{
    let ghost views = attestation_views(atts@);
    let ghost start = event_views(events@);
    let mut i: usize = 0;
    while i < atts.len()
        invariant
            0 <= i <= atts.len(),
            views == attestation_views(atts@),
            event_views(events@) == start + events_for(views.take(i as int), outcome@, kind),
        decreases atts.len() - i,
    {
        assert(views.take(i + 1).drop_last() =~= views.take(i as int));
        let ghost before = events@;
        if atts[i].outcome == *outcome {
            events.push(ReputationEvent { agent_id: atts[i].agent_id.clone(), kind });
            assert(event_views(events@) =~= event_views(before).push(events@.last()@));
        }
        i = i + 1;
        assert(event_views(events@) =~= start + events_for(views.take(i as int), outcome@, kind));
    }
    assert(views.take(atts.len() as int) =~= views);
}

/// Adjudicates a claim whose author is `author`, whose lens is `lens` and whose
/// attestations (the newest included) are `atts`, under a threshold of
/// `required` attestations: returns the claim's new lens and the reputation
/// events to apply, in order.
pub fn adjudicate(author: &String, atts: &Vec<Attestation>, lens: Lens, required: u32) -> (r: (
    Lens,
    Vec<ReputationEvent>,
))
    ensures
        r.0 == adjudicated_lens(attestation_views(atts@), lens, required as nat),
        event_views(r.1@) == adjudication_events(
            author@,
            attestation_views(atts@),
            lens,
            required as nat,
        ),
{
    let ghost views = attestation_views(atts@);
    let confirmed = String::from_str("confirmed");
    let countered = String::from_str("countered");
    let n_confirmed = count_outcome(atts, &confirmed);
    let n_countered = count_outcome(atts, &countered);
    let mut events: Vec<ReputationEvent> = Vec::new();
    let is_opinion = match lens {
        Lens::Opinion => true,
        _ => false,
    };
    if is_opinion && n_countered as u64 >= required as u64 {
        events.push(ReputationEvent { agent_id: author.clone(), kind: ReputationKind::ClaimFalse });
        assert(event_views(events@) =~= seq![
            ReputationEventView { agent_id: author@, kind: ReputationKind::ClaimFalse },
        ]);
        push_events_for(&mut events, atts, &confirmed, ReputationKind::CredulityPenalty);
        push_events_for(&mut events, atts, &countered, ReputationKind::CounterReward);
        (Lens::Counter, events)
    } else if is_opinion && n_confirmed as u64 >= required as u64 {
        events.push(
            ReputationEvent { agent_id: author.clone(), kind: ReputationKind::ClaimVerified },
        );
        assert(event_views(events@) =~= seq![
            ReputationEventView { agent_id: author@, kind: ReputationKind::ClaimVerified },
        ]);
        (Lens::Fact, events)
    } else {
        assert(event_views(events@) =~= seq![]);
        (lens, events)
    }
}

/// The text of the label of claim number `n`.
pub fn claim_label_text(n: u32) -> (s: String)
    ensures
        s@ == claim_label(n as nat),
{
    let mut s = String::from_str("claim-");
    push_decimal(&mut s, n);
    s
}

/// The record of a deposited claim, without its place in the world.
#[derive(Debug, Clone)]
pub struct ClaimRecord {
    pub id: String,
    pub agent_id: String,
    pub kind: String,
    pub lens: Lens,
    pub tick: u32,
    pub attestations: Vec<Attestation>,
    pub is_ground_truth_fiction: bool,
}

/// The mathematical content of a claim record.
pub struct ClaimView {
    pub id: Seq<char>,
    pub agent_id: Seq<char>,
    pub kind: Seq<char>,
    pub lens: Lens,
    pub tick: u32,
    pub attestations: Seq<AttestationView>,
    pub is_ground_truth_fiction: bool,
}

impl View for ClaimRecord {
    type V = ClaimView;

    open spec fn view(&self) -> ClaimView {
        ClaimView {
            id: self.id@,
            agent_id: self.agent_id@,
            kind: self.kind@,
            lens: self.lens,
            tick: self.tick,
            attestations: attestation_views(self.attestations@),
            is_ground_truth_fiction: self.is_ground_truth_fiction,
        }
    }
}

/// All deposited claims, numbered in the order of deposit.
#[derive(Debug)]
pub struct ClaimLedger {
    claims: Vec<ClaimRecord>,
    next_claim_id: u32,
}

/// The views of a sequence of claim records.
pub open spec fn claim_views(v: Seq<ClaimRecord>) -> Seq<ClaimView> {
    v.map_values(|c: ClaimRecord| c@)
}

impl View for ClaimLedger {
    type V = Seq<ClaimView>;

    closed spec fn view(&self) -> Seq<ClaimView> {
        claim_views(self.claims@)
    }
}

/// Whether the claims `v` are numbered in order: claim `i` is labelled `claim-i`.
pub open spec fn numbered(v: Seq<ClaimView>) -> bool {
    forall|i: int| 0 <= i < v.len() ==> #[trigger] v[i].id == claim_label(i as nat)
}

/// The position of the claim labelled `id` among `v`, if any.
pub open spec fn position_of(v: Seq<ClaimView>, id: Seq<char>) -> Option<int> {
    if exists|i: int| 0 <= i < v.len() && #[trigger] v[i].id == id {
        Some(choose|i: int| 0 <= i < v.len() && #[trigger] v[i].id == id)
    } else {
        None
    }
}

/// The claim `c` after the attestation `a` and its adjudication under `required`.
pub open spec fn attested(c: ClaimView, a: AttestationView, required: nat) -> ClaimView {
    ClaimView {
        lens: adjudicated_lens(c.attestations.push(a), c.lens, required),
        attestations: c.attestations.push(a),
        ..c
    }
}

/// In numbered claims, labels are unique.
pub proof fn lemma_numbered_unique(v: Seq<ClaimView>, i: int, j: int)
    requires
        numbered(v),
        0 <= i < v.len(),
        0 <= j < v.len(),
        v[i].id == v[j].id,
    ensures
        i == j,
{
    lemma_claim_label_injective(i as nat, j as nat);
}

impl ClaimLedger {
    /// The ledger's invariant: claims are numbered in order, and the next
    /// number is the count of claims.
    pub closed spec fn well_formed(&self) -> bool {
        &&& numbered(self@)
        &&& self.next_claim_id as nat == self.claims@.len()
    }

    /// The number the next deposited claim receives.
    pub closed spec fn next_number(&self) -> nat {
        self.next_claim_id as nat
    }

    /// An empty ledger.
    pub fn new() -> (r: ClaimLedger)
        ensures
            r.well_formed(),
            r@ == Seq::<ClaimView>::empty(),
    {
        let r = ClaimLedger { claims: Vec::new(), next_claim_id: 0 };
        assert(r@ =~= Seq::<ClaimView>::empty());
        r
    }

    /// The number of deposited claims.
    pub fn len(&self) -> (n: usize)
        ensures
            n == self@.len(),
    {
        self.claims.len()
    }

    /// The deposited claims, in the order of deposit.
    pub fn claims(&self) -> (r: &Vec<ClaimRecord>)
        ensures
            claim_views(r@) == self@,
    {
        &self.claims
    }

    /// Deposits a claim by `agent_id` of kind `kind` under `lens` at `tick`; it
    /// receives the next number, and its label is returned.
    pub fn deposit_claim(&mut self, agent_id: &str, kind: &str, lens: Lens, tick: u32) -> (id:
        String)
        requires
            old(self).well_formed(),
            old(self)@.len() < u32::MAX,
        ensures
            final(self).well_formed(),
            id@ == claim_label(old(self)@.len()),
            final(self)@ == old(self)@.push(
                ClaimView {
                    id: claim_label(old(self)@.len()),
                    agent_id: agent_id@,
                    kind: kind@,
                    lens,
                    tick,
                    attestations: Seq::empty(),
                    is_ground_truth_fiction: false,
                },
            ),
    {
        let n = self.next_claim_id;
        let id = claim_label_text(n);
        let record = ClaimRecord {
            id: id.clone(),
            agent_id: String::from_str(agent_id),
            kind: String::from_str(kind),
            lens,
            tick,
            attestations: Vec::new(),
            is_ground_truth_fiction: false,
        };
        assert(attestation_views(record.attestations@) =~= Seq::<AttestationView>::empty());
        let ghost before = self.claims@;
        self.claims.push(record);
        self.next_claim_id = n + 1;
        assert(claim_views(self.claims@) =~= claim_views(before).push(self.claims@.last()@));
        id
    }

    /// Finds the position of the claim labelled `claim_id`.
    fn find(&self, claim_id: &String) -> (r: Option<usize>)
        requires
            self.well_formed(),
        ensures
            match r {
                Some(i) => position_of(self@, claim_id@) == Some(i as int),
                None => position_of(self@, claim_id@) is None,
            },
    {
        let mut i: usize = 0;
        while i < self.claims.len()
            invariant
                self.well_formed(),
                0 <= i <= self.claims.len(),
                forall|j: int| 0 <= j < i ==> #[trigger] self@[j].id != claim_id@,
            decreases self.claims.len() - i,
        {
            if self.claims[i].id == *claim_id {
                proof {
                    assert(self@[i as int].id == claim_id@);
                    let c = choose|k: int| 0 <= k < self@.len() && #[trigger] self@[k].id == claim_id@;
                    lemma_numbered_unique(self@, i as int, c);
                }
                return Some(i);
            }
            i = i + 1;
        }
        None
    }

    /// Records the attestation of `agent_id` with outcome `outcome` at `tick` on
    /// the claim labelled `claim_id`, and adjudicates the claim under a
    /// threshold of `required` attestations. Returns the reputation events to
    /// apply, in order; an unknown label changes nothing.
    pub fn attest_claim(
        &mut self,
        claim_id: &str,
        agent_id: &str,
        outcome: &str,
        tick: u32,
        required: u32,
    ) -> (events: Vec<ReputationEvent>)
        requires
            old(self).well_formed(),
        ensures
            final(self).well_formed(),
            match position_of(old(self)@, claim_id@) {
                None => {
                    &&& final(self)@ == old(self)@
                    &&& events@.len() == 0
                },
                Some(i) => {
                    let c = old(self)@[i];
                    let a = AttestationView { agent_id: agent_id@, outcome: outcome@, tick };
                    &&& final(self)@ == old(self)@.update(i, attested(c, a, required as nat))
                    &&& event_views(events@) == adjudication_events(
                        c.agent_id,
                        c.attestations.push(a),
                        c.lens,
                        required as nat,
                    )
                },
            },
    {
        let key = String::from_str(claim_id);
        match self.find(&key) {
            None => Vec::new(),
            Some(i) => {
                let ghost old_view = self@;
                let ghost old_claims = self.claims@;
                let mut record = self.claims.remove(i);
                let att = Attestation {
                    agent_id: String::from_str(agent_id),
                    outcome: String::from_str(outcome),
                    tick,
                };
                let ghost old_atts = record.attestations@;
                record.attestations.push(att);
                assert(attestation_views(record.attestations@) =~= attestation_views(
                    old_atts,
                ).push(record.attestations@.last()@));
                let (lens, events) = adjudicate(
                    &record.agent_id,
                    &record.attestations,
                    record.lens,
                    required,
                );
                record.lens = lens;
                self.claims.insert(i, record);
                assert(self.claims@ =~= old_claims.update(i as int, self.claims@[i as int]));
                assert(self@ =~= old_view.update(
                    i as int,
                    attested(
                        old_view[i as int],
                        AttestationView { agent_id: agent_id@, outcome: outcome@, tick },
                        required as nat,
                    ),
                ));
                events
            },
        }
    }

    /// The number of claims whose lens is `Counter`.
    pub fn counter_count(&self) -> (n: usize)
        ensures
            n == lens_count(self@, Lens::Counter),
    {
        let ghost views = self@;
        let mut n: usize = 0;
        let mut i: usize = 0;
        while i < self.claims.len()
            invariant
                0 <= i <= self.claims.len(),
                views == self@,
                views == claim_views(self.claims@),
                n == lens_count(views.take(i as int), Lens::Counter),
                n <= i,
            decreases self.claims.len() - i,
        {
            assert(views.take(i + 1).drop_last() =~= views.take(i as int));
            let is_counter = match self.claims[i].lens {
                Lens::Counter => true,
                _ => false,
            };
            if is_counter {
                n = n + 1;
            }
            i = i + 1;
        }
        assert(views.take(self.claims.len() as int) =~= views);
        n
    }
}

/// The number of claims among `v` whose lens is `lens`.
pub open spec fn lens_count(v: Seq<ClaimView>, lens: Lens) -> nat
    decreases v.len(),
{
    if v.len() == 0 {
        0
    } else {
        lens_count(v.drop_last(), lens) + if v.last().lens == lens {
            1nat
        } else {
            0nat
        }
    }
}


/// There is one event per attestation with the outcome.
pub proof fn lemma_events_for_len(atts: Seq<AttestationView>, outcome: Seq<char>, kind: ReputationKind)
    ensures
        events_for(atts, outcome, kind).len() == outcome_count(atts, outcome),
    decreases atts.len(),
{
    if atts.len() > 0 {
        lemma_events_for_len(atts.drop_last(), outcome, kind);
    }
}

/// The attestation at `k`, if its outcome is `outcome`, gives its agent an
/// event of kind `kind`.
pub proof fn lemma_events_for_complete(
    atts: Seq<AttestationView>,
    outcome: Seq<char>,
    kind: ReputationKind,
    k: int,
)
    requires
        0 <= k < atts.len(),
        atts[k].outcome == outcome,
    ensures
        events_for(atts, outcome, kind).contains(
            ReputationEventView { agent_id: atts[k].agent_id, kind },
        ),
    decreases atts.len(),
{
    let x = ReputationEventView { agent_id: atts[k].agent_id, kind };
    let e = events_for(atts, outcome, kind);
    if k < atts.len() - 1 {
        let rest = atts.drop_last();
        assert(rest[k] == atts[k]);
        lemma_events_for_complete(rest, outcome, kind, k);
        let er = events_for(rest, outcome, kind);
        let j = choose|j: int| 0 <= j < er.len() && er[j] == x;
        assert(e[j] == x);
    } else {
        assert(e[e.len() - 1] == x);
    }
}

/// Each event at `j` comes from an attestation with the outcome.
pub proof fn lemma_events_for_sound(
    atts: Seq<AttestationView>,
    outcome: Seq<char>,
    kind: ReputationKind,
    j: int,
)
    requires
        0 <= j < events_for(atts, outcome, kind).len(),
    ensures
        exists|k: int|
            0 <= k < atts.len() && atts[k].outcome == outcome && events_for(atts, outcome, kind)[j]
                == (ReputationEventView { agent_id: atts[k].agent_id, kind }),
    decreases atts.len(),
{
    let rest = atts.drop_last();
    let e = events_for(atts, outcome, kind);
    let er = events_for(rest, outcome, kind);
    if j < er.len() {
        lemma_events_for_sound(rest, outcome, kind, j);
        assert(e[j] == er[j]);
        let k = choose|k: int|
            0 <= k < rest.len() && rest[k].outcome == outcome && er[j] == (ReputationEventView {
                agent_id: rest[k].agent_id,
                kind,
            });
        assert(rest[k] == atts[k]);
    } else {
        assert(atts.last() == atts[atts.len() - 1]);
    }
}

/// Adjudication judges opinions only: a fact, a countered claim or any other
/// lens keeps its lens, and no reputation event follows.
pub proof fn lemma_settled_claims_stay(atts: Seq<AttestationView>, lens: Lens, required: nat)
    requires
        lens != Lens::Opinion,
    ensures
        adjudicated_lens(atts, lens, required) == lens,
        adjudication_events(Seq::empty(), atts, lens, required).len() == 0,
        forall|author: Seq<char>| #[trigger] adjudication_events(author, atts, lens, required).len() == 0,
{
}

/// A lens changes only from opinion, and only to fact or counter.
pub proof fn lemma_lens_transitions(atts: Seq<AttestationView>, lens: Lens, required: nat)
    ensures
        adjudicated_lens(atts, lens, required) == lens || (lens == Lens::Opinion && (
        adjudicated_lens(atts, lens, required) == Lens::Fact || adjudicated_lens(
            atts,
            lens,
            required,
        ) == Lens::Counter)),
{
}

/// The kind of event an attester receives when the claim it judged is countered.
pub open spec fn counter_kind_for(outcome: Seq<char>) -> ReputationKind {
    if outcome == confirmed_text() {
        ReputationKind::CredulityPenalty
    } else {
        ReputationKind::CounterReward
    }
}

/// An element of the middle or last part of a concatenation is an element of it.
proof fn lemma_concat_contains<T>(a: Seq<T>, b: Seq<T>, c: Seq<T>, x: T)
    requires
        b.contains(x) || c.contains(x),
    ensures
        (a + b + c).contains(x),
{
    if b.contains(x) {
        let j = choose|j: int| 0 <= j < b.len() && b[j] == x;
        assert((a + b + c)[a.len() + j] == x);
    } else {
        let j = choose|j: int| 0 <= j < c.len() && c[j] == x;
        assert((a + b + c)[a.len() + b.len() + j] == x);
    }
}

/// Every event after the first of a counter adjudication goes to an attester,
/// with the kind its outcome calls for.
proof fn lemma_counter_events_from_attesters(author: Seq<char>, atts: Seq<AttestationView>, j: int)
    requires
        1 <= j < 1 + outcome_count(atts, confirmed_text()) + outcome_count(atts, countered_text()),
    ensures
        exists|k: int|
            0 <= k < atts.len() && counter_events(author, atts)[j] == (ReputationEventView {
                agent_id: atts[k].agent_id,
                kind: counter_kind_for(atts[k].outcome),
            }),
{
    let pen = events_for(atts, confirmed_text(), ReputationKind::CredulityPenalty);
    let rew = events_for(atts, countered_text(), ReputationKind::CounterReward);
    let ev = seq![ReputationEventView { agent_id: author, kind: ReputationKind::ClaimFalse }] + pen
        + rew;
    lemma_events_for_len(atts, confirmed_text(), ReputationKind::CredulityPenalty);
    lemma_events_for_len(atts, countered_text(), ReputationKind::CounterReward);
    if j < 1 + pen.len() {
        assert(ev[j] == pen[j - 1]);
        lemma_events_for_sound(atts, confirmed_text(), ReputationKind::CredulityPenalty, j - 1);
        let k = choose|k: int|
            0 <= k < atts.len() && atts[k].outcome == confirmed_text() && pen[j - 1]
                == (ReputationEventView {
                agent_id: atts[k].agent_id,
                kind: ReputationKind::CredulityPenalty,
            });
        assert(ev[j] == (ReputationEventView {
            agent_id: atts[k].agent_id,
            kind: counter_kind_for(atts[k].outcome),
        }));
    } else {
        let m = j - 1 - pen.len();
        assert(ev[j] == rew[m]);
        lemma_events_for_sound(atts, countered_text(), ReputationKind::CounterReward, m);
        let k = choose|k: int|
            0 <= k < atts.len() && atts[k].outcome == countered_text() && rew[m] == (
            ReputationEventView { agent_id: atts[k].agent_id, kind: ReputationKind::CounterReward });
        lemma_outcome_texts_differ();
        assert(ev[j] == (ReputationEventView {
            agent_id: atts[k].agent_id,
            kind: counter_kind_for(atts[k].outcome),
        }));
    }
}

/// The events of a counter adjudication of a claim by `author` with
/// attestations `atts`.
pub open spec fn counter_events(author: Seq<char>, atts: Seq<AttestationView>) -> Seq<
    ReputationEventView,
> {
    seq![ReputationEventView { agent_id: author, kind: ReputationKind::ClaimFalse }] + events_for(
        atts,
        confirmed_text(),
        ReputationKind::CredulityPenalty,
    ) + events_for(atts, countered_text(), ReputationKind::CounterReward)
}

/// Each attester of a countered claim receives the event its outcome calls for.
proof fn lemma_counter_events_reach_attesters(author: Seq<char>, atts: Seq<AttestationView>, k: int)
    requires
        0 <= k < atts.len(),
    ensures
        atts[k].outcome == confirmed_text() ==> counter_events(author, atts).contains(
            ReputationEventView {
                agent_id: atts[k].agent_id,
                kind: ReputationKind::CredulityPenalty,
            },
        ),
        atts[k].outcome == countered_text() ==> counter_events(author, atts).contains(
            ReputationEventView { agent_id: atts[k].agent_id, kind: ReputationKind::CounterReward },
        ),
{
    let head = seq![ReputationEventView { agent_id: author, kind: ReputationKind::ClaimFalse }];
    let pen = events_for(atts, confirmed_text(), ReputationKind::CredulityPenalty);
    let rew = events_for(atts, countered_text(), ReputationKind::CounterReward);
    if atts[k].outcome == confirmed_text() {
        let x = ReputationEventView {
            agent_id: atts[k].agent_id,
            kind: ReputationKind::CredulityPenalty,
        };
        lemma_events_for_complete(atts, confirmed_text(), ReputationKind::CredulityPenalty, k);
        lemma_concat_contains(head, pen, rew, x);
    }
    if atts[k].outcome == countered_text() {
        let x = ReputationEventView {
            agent_id: atts[k].agent_id,
            kind: ReputationKind::CounterReward,
        };
        lemma_events_for_complete(atts, countered_text(), ReputationKind::CounterReward, k);
        lemma_concat_contains(head, pen, rew, x);
    }
}

/// The liar pays: when an opinion collects `required` counters it becomes a
/// counter even if it also has enough confirmations; its author is penalised
/// first, every confirmer receives a credulity penalty, every counterer a
/// reward, and every other event goes to an attester with the kind its
/// outcome calls for.
pub proof fn lemma_liar_pays(author: Seq<char>, atts: Seq<AttestationView>, required: nat)
    requires
        outcome_count(atts, countered_text()) >= required,
    ensures
        adjudicated_lens(atts, Lens::Opinion, required) == Lens::Counter,
        adjudication_events(author, atts, Lens::Opinion, required) == counter_events(author, atts),
        counter_events(author, atts)[0] == (ReputationEventView {
            agent_id: author,
            kind: ReputationKind::ClaimFalse,
        }),
        counter_events(author, atts).len() == 1 + outcome_count(atts, confirmed_text())
            + outcome_count(atts, countered_text()),
        forall|k: int|
            0 <= k < atts.len() && #[trigger] atts[k].outcome == confirmed_text() ==> counter_events(
                author,
                atts,
            ).contains(
                ReputationEventView {
                    agent_id: atts[k].agent_id,
                    kind: ReputationKind::CredulityPenalty,
                },
            ),
        forall|k: int|
            0 <= k < atts.len() && #[trigger] atts[k].outcome == countered_text() ==> counter_events(
                author,
                atts,
            ).contains(
                ReputationEventView {
                    agent_id: atts[k].agent_id,
                    kind: ReputationKind::CounterReward,
                },
            ),
        forall|j: int|
            1 <= j < counter_events(author, atts).len() ==> exists|k: int|
                0 <= k < atts.len() && #[trigger] counter_events(author, atts)[j] == (
                ReputationEventView {
                    agent_id: atts[k].agent_id,
                    kind: counter_kind_for(atts[k].outcome),
                }),
{
    lemma_events_for_len(atts, confirmed_text(), ReputationKind::CredulityPenalty);
    lemma_events_for_len(atts, countered_text(), ReputationKind::CounterReward);
    assert forall|k: int| 0 <= k < atts.len() && #[trigger] atts[k].outcome == confirmed_text() implies counter_events(
        author,
        atts,
    ).contains(
        ReputationEventView { agent_id: atts[k].agent_id, kind: ReputationKind::CredulityPenalty },
    ) by {
        lemma_counter_events_reach_attesters(author, atts, k);
    }
    assert forall|k: int| 0 <= k < atts.len() && #[trigger] atts[k].outcome == countered_text() implies counter_events(
        author,
        atts,
    ).contains(
        ReputationEventView { agent_id: atts[k].agent_id, kind: ReputationKind::CounterReward },
    ) by {
        lemma_counter_events_reach_attesters(author, atts, k);
    }
    assert forall|j: int| 1 <= j < counter_events(author, atts).len() implies exists|k: int|
        0 <= k < atts.len() && #[trigger] counter_events(author, atts)[j] == (ReputationEventView {
            agent_id: atts[k].agent_id,
            kind: counter_kind_for(atts[k].outcome),
        }) by {
        lemma_counter_events_from_attesters(author, atts, j);
    }
}

/// The two outcome texts differ.
pub proof fn lemma_outcome_texts_differ()
    ensures
        confirmed_text() != countered_text(),
{
    reveal_strlit("confirmed");
    reveal_strlit("countered");
    assert(confirmed_text()[2] != countered_text()[2]);
}

/// An opinion that is not countered and collects `required` confirmations
/// becomes a fact, and only its author is credited.
pub proof fn lemma_truth_is_verified(author: Seq<char>, atts: Seq<AttestationView>, required: nat)
    requires
        outcome_count(atts, countered_text()) < required,
        outcome_count(atts, confirmed_text()) >= required,
    ensures
        adjudicated_lens(atts, Lens::Opinion, required) == Lens::Fact,
        adjudication_events(author, atts, Lens::Opinion, required) == seq![
            ReputationEventView { agent_id: author, kind: ReputationKind::ClaimVerified },
        ],
{
}

/// Claim labels stay unique: in a well-formed ledger, two claims with the same
/// label are the same claim, and the claim labelled `claim-n` is claim `n`.
pub proof fn lemma_labels_unique(ledger: &ClaimLedger, i: int, j: int)
    requires
        ledger.well_formed(),
        0 <= i < ledger@.len(),
        0 <= j < ledger@.len(),
        ledger@[i].id == ledger@[j].id,
    ensures
        i == j,
        position_of(ledger@, claim_label(i as nat)) == Some(i),
{
    lemma_well_formed_is_numbered(ledger);
    lemma_numbered_unique(ledger@, i, j);
    let v = ledger@;
    assert(v[i].id == claim_label(i as nat));
    let c = choose|k: int| 0 <= k < v.len() && #[trigger] v[k].id == claim_label(i as nat);
    lemma_numbered_unique(v, i, c);
}

/// Attestations are append-only: an attestation adds itself at the end of the
/// claim's list, and the claim's label, author, kind, tick and fiction flag
/// stay as they were.
pub proof fn lemma_attestations_append_only(c: ClaimView, a: AttestationView, required: nat)
    ensures
        attested(c, a, required).attestations == c.attestations.push(a),
        attested(c, a, required).id == c.id,
        attested(c, a, required).agent_id == c.agent_id,
        attested(c, a, required).kind == c.kind,
        attested(c, a, required).tick == c.tick,
        attested(c, a, required).is_ground_truth_fiction == c.is_ground_truth_fiction,
{
}

/// A well-formed ledger is numbered.
pub proof fn lemma_well_formed_is_numbered(ledger: &ClaimLedger)
    requires
        ledger.well_formed(),
    ensures
        numbered(ledger@),
{
}

/// Whether an attestation's outcome text is `outcome`.
pub open spec fn has_outcome(outcome: Seq<char>) -> spec_fn(AttestationView) -> bool {
    |a: AttestationView| a.outcome == outcome
}

/// Whether a claim's lens is `lens`.
pub open spec fn has_lens(lens: Lens) -> spec_fn(ClaimView) -> bool {
    |c: ClaimView| c.lens == lens
}

/// `outcome_count` is the number of attestations whose outcome is `outcome`.
pub proof fn lemma_outcome_count_is_filter(atts: Seq<AttestationView>, outcome: Seq<char>)
    ensures
        outcome_count(atts, outcome) == atts.filter(has_outcome(outcome)).len(),
    decreases atts.len(),
{
    reveal(Seq::filter);
    if atts.len() > 0 {
        lemma_outcome_count_is_filter(atts.drop_last(), outcome);
    }
}

/// The adjudication thresholds, in terms of the attestations themselves: an
/// opinion is countered exactly when at least `required` attestations say
/// "countered"; otherwise it becomes a fact exactly when at least `required`
/// say "confirmed"; otherwise it stays an opinion and nobody's reputation
/// moves. Any other lens stays as it is.
pub proof fn lemma_adjudication_thresholds(
    author: Seq<char>,
    atts: Seq<AttestationView>,
    lens: Lens,
    required: nat,
)
    ensures
        lens == Lens::Opinion ==> adjudicated_lens(atts, lens, required) == (if atts.filter(
            has_outcome("countered"@),
        ).len() >= required {
            Lens::Counter
        } else if atts.filter(has_outcome("confirmed"@)).len() >= required {
            Lens::Fact
        } else {
            Lens::Opinion
        }),
        lens == Lens::Opinion && atts.filter(has_outcome("countered"@)).len() < required && atts.filter(
            has_outcome("confirmed"@),
        ).len() < required ==> adjudication_events(author, atts, lens, required).len() == 0,
        lens != Lens::Opinion ==> adjudicated_lens(atts, lens, required) == lens
            && adjudication_events(author, atts, lens, required).len() == 0,
{
    lemma_outcome_count_is_filter(atts, "countered"@);
    lemma_outcome_count_is_filter(atts, "confirmed"@);
}

/// `lens_count` is the number of claims whose lens is `lens`; in particular
/// it is zero when no claim has that lens.
pub proof fn lemma_lens_count_is_filter(v: Seq<ClaimView>, lens: Lens)
    ensures
        lens_count(v, lens) == v.filter(has_lens(lens)).len(),
        (forall|i: int| 0 <= i < v.len() ==> #[trigger] v[i].lens != lens) ==> lens_count(v, lens)
            == 0,
    decreases v.len(),
{
    reveal(Seq::filter);
    if v.len() > 0 {
        lemma_lens_count_is_filter(v.drop_last(), lens);
        if forall|i: int| 0 <= i < v.len() ==> #[trigger] v[i].lens != lens {
            assert forall|i: int| 0 <= i < v.drop_last().len() implies #[trigger] v.drop_last()[i].lens
                != lens by {
                assert(v.drop_last()[i] == v[i]);
            }
            assert(v.last() == v[v.len() - 1]);
        }
    }
}

} // verus!
