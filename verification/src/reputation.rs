//! The reputation ledger: for each agent, the append-only list of events from
//! which its reputation weight is computed.

use vstd::prelude::*;
use crate::claims::{
    counter_events, countered_text, event_views, lemma_liar_pays, outcome_count, AttestationView,
    ReputationEvent, ReputationEventView, ReputationKind,
};
use crate::types::Lens;
use crate::claims::adjudication_events;

verus! {

/// One event of an agent's reputation history.
#[derive(Debug, Clone, Copy, PartialEq, Eq, Structural)]
pub struct LedgerEntry {
    pub tick: u32,
    pub kind: ReputationKind,
}

/// The reason text recorded with an event of kind `kind`.
pub open spec fn reason_spec(kind: ReputationKind) -> Seq<char> {
    match kind {
        ReputationKind::ClaimFalse => "claim_false"@,
        ReputationKind::CredulityPenalty => "credulity_penalty"@,
        ReputationKind::CounterReward => "counter_reward"@,
        ReputationKind::ClaimVerified => "claim_verified"@,
    }
}

/// The reason text recorded with an event of kind `kind`.
pub fn reason_text(kind: ReputationKind) -> (r: &'static str)
    ensures
        r@ == reason_spec(kind),
{
    match kind {
        ReputationKind::ClaimFalse => "claim_false",
        ReputationKind::CredulityPenalty => "credulity_penalty",
        ReputationKind::CounterReward => "counter_reward",
        ReputationKind::ClaimVerified => "claim_verified",
    }
}

/// The history of `id` in the ledger `m`: empty for an agent never seen.
pub open spec fn history(m: Map<Seq<char>, Seq<LedgerEntry>>, id: Seq<char>) -> Seq<LedgerEntry> {
    if m.contains_key(id) {
        m[id]
    } else {
        Seq::empty()
    }
}

/// The ledger `m` after recording `entry` for `id`.
pub open spec fn recorded(
    m: Map<Seq<char>, Seq<LedgerEntry>>,
    id: Seq<char>,
    entry: LedgerEntry,
) -> Map<Seq<char>, Seq<LedgerEntry>> {
    m.insert(id, history(m, id).push(entry))
}

/// The ledger `m` after recording each of `events`, in order, at `tick`.
pub open spec fn applied(
    m: Map<Seq<char>, Seq<LedgerEntry>>,
    events: Seq<ReputationEventView>,
    tick: u32,
) -> Map<Seq<char>, Seq<LedgerEntry>>
    decreases events.len(),
{
    if events.len() == 0 {
        m
    } else {
        recorded(
            applied(m, events.drop_last(), tick),
            events.last().agent_id,
            LedgerEntry { tick, kind: events.last().kind },
        )
    }
}

/// The entries that `events` add, at `tick`, to the history of `id`.
pub open spec fn entries_for(events: Seq<ReputationEventView>, id: Seq<char>, tick: u32) -> Seq<
    LedgerEntry,
>
    decreases events.len(),
{
    if events.len() == 0 {
        Seq::empty()
    } else {
        let rest = entries_for(events.drop_last(), id, tick);
        if events.last().agent_id == id {
            rest.push(LedgerEntry { tick, kind: events.last().kind })
        } else {
            rest
        }
    }
}

/// Per-agent reputation histories.
#[derive(Debug)]
pub struct ReputationLedger {
    ids: Vec<String>,
    logs: Vec<Vec<LedgerEntry>>,
}

impl View for ReputationLedger {
    type V = Map<Seq<char>, Seq<LedgerEntry>>;

    closed spec fn view(&self) -> Map<Seq<char>, Seq<LedgerEntry>> {
        Map::new(
            |k: Seq<char>| exists|i: int| 0 <= i < self.ids@.len() && #[trigger] self.ids@[i]@ == k,
            |k: Seq<char>|
                self.logs@[choose|i: int| 0 <= i < self.ids@.len() && #[trigger] self.ids@[i]@ == k]@,
        )
    }
}

impl ReputationLedger {
    /// The ledger's invariant: one history per agent.
    pub closed spec fn well_formed(&self) -> bool {
        &&& self.ids@.len() == self.logs@.len()
        &&& forall|i: int, j: int|
            0 <= i < self.ids@.len() && 0 <= j < self.ids@.len() && #[trigger] self.ids@[i]@
                == #[trigger] self.ids@[j]@ ==> i == j
    }

    /// What the view says of the agent at position `i`.
    proof fn lemma_view_at(&self, i: int)
        requires
            self.well_formed(),
            0 <= i < self.ids@.len(),
        ensures
            self@.contains_key(self.ids@[i]@),
            self@[self.ids@[i]@] == self.logs@[i]@,
    {
        let k = self.ids@[i]@;
        assert(self@.contains_key(k));
        let c = choose|j: int| 0 <= j < self.ids@.len() && #[trigger] self.ids@[j]@ == k;
        assert(c == i);
    }

    /// An empty ledger.
    pub fn new() -> (r: ReputationLedger)
        ensures
            r.well_formed(),
            r@ == Map::<Seq<char>, Seq<LedgerEntry>>::empty(),
    {
        let r = ReputationLedger { ids: Vec::new(), logs: Vec::new() };
        assert(r@ =~= Map::<Seq<char>, Seq<LedgerEntry>>::empty());
        r
    }

    /// The position of `id`, if it has a history.
    fn position(&self, id: &String) -> (r: Option<usize>)
        requires
            self.well_formed(),
        ensures
            match r {
                Some(i) => i < self.ids@.len() && self.ids@[i as int]@ == id@,
                None => !self@.contains_key(id@),
            },
    {
        let mut i: usize = 0;
        while i < self.ids.len()
            invariant
                0 <= i <= self.ids@.len(),
                forall|j: int| 0 <= j < i ==> #[trigger] self.ids@[j]@ != id@,
            decreases self.ids.len() - i,
        {
            if self.ids[i] == *id {
                return Some(i);
            }
            i = i + 1;
        }
        None
    }

    /// Gives `id` a history if it has none (an empty one); every history stays
    /// as it was.
    pub fn register(&mut self, id: &str)
        requires
            old(self).well_formed(),
        ensures
            final(self).well_formed(),
            final(self)@ == (if old(self)@.contains_key(id@) {
                old(self)@
            } else {
                old(self)@.insert(id@, Seq::empty())
            }),
    {
        let key = String::from_str(id);
        match self.position(&key) {
            Some(i) => {
                proof {
                    self.lemma_view_at(i as int);
                }
            },
            None => {
                let ghost old_self = *self;
                self.ids.push(key);
                self.logs.push(Vec::new());
                proof {
                    let n = old_self.ids@.len() as int;
                    assert(self.ids@[n]@ == id@);
                    assert forall|i: int, j: int|
                        0 <= i < self.ids@.len() && 0 <= j < self.ids@.len() && #[trigger] self.ids@[i]@
                            == #[trigger] self.ids@[j]@ implies i == j by {
                        if i < n && j < n {
                            assert(old_self.ids@[i] == self.ids@[i]);
                            assert(old_self.ids@[j] == self.ids@[j]);
                        } else if i < n {
                            assert(old_self.ids@[i] == self.ids@[i]);
                            assert(old_self@.contains_key(old_self.ids@[i]@));
                        } else if j < n {
                            assert(old_self.ids@[j] == self.ids@[j]);
                            assert(old_self@.contains_key(old_self.ids@[j]@));
                        }
                    }
                    assert forall|k: Seq<char>| #[trigger] self@.contains_key(k) == old_self@.insert(
                        id@,
                        Seq::empty(),
                    ).contains_key(k) by {
                        if self@.contains_key(k) {
                            let i = choose|i: int| 0 <= i < self.ids@.len() && #[trigger] self.ids@[i]@ == k;
                            if i < n {
                                assert(old_self.ids@[i] == self.ids@[i]);
                            }
                        }
                        if old_self@.contains_key(k) {
                            let i = choose|i: int|
                                0 <= i < old_self.ids@.len() && #[trigger] old_self.ids@[i]@ == k;
                            assert(old_self.ids@[i] == self.ids@[i]);
                        }
                    }
                    assert forall|k: Seq<char>| #[trigger] self@.contains_key(k) implies self@[k]
                        == old_self@.insert(id@, Seq::empty())[k] by {
                        let i = choose|i: int| 0 <= i < self.ids@.len() && #[trigger] self.ids@[i]@ == k;
                        self.lemma_view_at(i);
                        if i < n {
                            assert(old_self.ids@[i] == self.ids@[i]);
                            assert(old_self.logs@[i] == self.logs@[i]);
                            old_self.lemma_view_at(i);
                        } else {
                            assert(self.logs@[i]@ =~= Seq::<LedgerEntry>::empty());
                        }
                    }
                    assert(self@ =~= old_self@.insert(id@, Seq::empty()));
                }
            },
        }
    }

    /// Appends `entry` to the history of `id`; no other history changes.
    pub fn record(&mut self, id: &str, entry: LedgerEntry)
        requires
            old(self).well_formed(),
        ensures
            final(self).well_formed(),
            final(self)@ == recorded(old(self)@, id@, entry),
    {
        self.register(id);
        let ghost mid = *self;
        let key = String::from_str(id);
        let pos = self.position(&key);
        match pos {
            Some(i) => {
                proof {
                    mid.lemma_view_at(i as int);
                }
                let mut log = self.logs.remove(i);
                log.push(entry);
                self.logs.insert(i, log);
                proof {
                    assert(self.ids@ == mid.ids@);
                    assert forall|k: Seq<char>| #[trigger] self@.contains_key(k)
                        == mid@.contains_key(k) by {
                    }
                    assert forall|k: Seq<char>| #[trigger] self@.contains_key(k) implies self@[k]
                        == mid@.insert(id@, history(mid@, id@).push(entry))[k] by {
                        let j = choose|j: int| 0 <= j < self.ids@.len() && #[trigger] self.ids@[j]@ == k;
                        self.lemma_view_at(j);
                        mid.lemma_view_at(j);
                        if j != i {
                            assert(self.logs@[j] == mid.logs@[j]);
                        } else {
                            assert(self.logs@[j]@ =~= mid.logs@[j]@.push(entry));
                        }
                    }
                    assert(self@ =~= mid@.insert(id@, history(mid@, id@).push(entry)));
                }
            },
            None => {
                proof {
                    assert(false);
                }
            },
        }
    }

    /// Records each of `events`, in order, at `tick`.
    pub fn apply_events(&mut self, events: &Vec<ReputationEvent>, tick: u32)
        requires
            old(self).well_formed(),
        ensures
            final(self).well_formed(),
            final(self)@ == applied(old(self)@, event_views(events@), tick),
    {
        let ghost start = self@;
        let ghost evs = event_views(events@);
        let mut i: usize = 0;
        while i < events.len()
            invariant
                0 <= i <= events.len(),
                self.well_formed(),
                evs == event_views(events@),
                self@ == applied(start, evs.take(i as int), tick),
            decreases events.len() - i,
        {
            assert(evs.take(i + 1).drop_last() =~= evs.take(i as int));
            let e = &events[i];
            self.record(e.agent_id.as_str(), LedgerEntry { tick, kind: e.kind });
            i = i + 1;
        }
        assert(evs.take(events.len() as int) =~= evs);
    }

    /// The history of `id`, oldest first.
    pub fn history_of(&self, id: &str) -> (r: Vec<LedgerEntry>)
        requires
            self.well_formed(),
        ensures
            r@ == history(self@, id@),
    {
        let key = String::from_str(id);
        match self.position(&key) {
            Some(i) => {
                proof {
                    self.lemma_view_at(i as int);
                }
                self.logs[i].clone()
            },
            None => Vec::new(),
        }
    }
}

/// Recording is append-only and touches one agent: the history of `id` grows
/// by `entry` at its end, and every other history stays as it was.
pub proof fn lemma_record_appends(
    m: Map<Seq<char>, Seq<LedgerEntry>>,
    id: Seq<char>,
    entry: LedgerEntry,
    other: Seq<char>,
)
    ensures
        history(recorded(m, id, entry), id) == history(m, id).push(entry),
        other != id ==> history(recorded(m, id, entry), other) == history(m, other),
{
}

/// Applying adjudication events extends each agent's history by exactly the
/// events addressed to it, in order; nothing is lost or reordered.
pub proof fn lemma_applied_histories(
    m: Map<Seq<char>, Seq<LedgerEntry>>,
    events: Seq<ReputationEventView>,
    tick: u32,
    id: Seq<char>,
)
    ensures
        history(applied(m, events, tick), id) == history(m, id) + entries_for(events, id, tick),
    decreases events.len(),
{
    if events.len() == 0 {
        assert(history(m, id) + Seq::<LedgerEntry>::empty() =~= history(m, id));
    } else {
        lemma_applied_histories(m, events.drop_last(), tick, id);
        let prev = applied(m, events.drop_last(), tick);
        lemma_record_appends(
            prev,
            events.last().agent_id,
            LedgerEntry { tick, kind: events.last().kind },
            id,
        );
        if events.last().agent_id == id {
            assert(history(m, id) + entries_for(events, id, tick) =~= (history(m, id)
                + entries_for(events.drop_last(), id, tick)).push(
                LedgerEntry { tick, kind: events.last().kind },
            ));
        }
    }
}


/// The entries of a concatenation of events are those of each part, in order.
pub proof fn lemma_entries_for_concat(
    a: Seq<ReputationEventView>,
    b: Seq<ReputationEventView>,
    id: Seq<char>,
    tick: u32,
)
    ensures
        entries_for(a + b, id, tick) == entries_for(a, id, tick) + entries_for(b, id, tick),
    decreases b.len(),
{
    if b.len() == 0 {
        assert(a + b =~= a);
        assert(entries_for(a, id, tick) + entries_for(b, id, tick) =~= entries_for(a, id, tick));
    } else {
        assert((a + b).drop_last() =~= a + b.drop_last());
        lemma_entries_for_concat(a, b.drop_last(), id, tick);
        assert((a + b).last() == b.last());
        if b.last().agent_id == id {
            assert(entries_for(a, id, tick) + entries_for(b, id, tick) =~= (entries_for(a, id, tick)
                + entries_for(b.drop_last(), id, tick)).push(
                LedgerEntry { tick, kind: b.last().kind },
            ));
        }
    }
}

/// The liar pays in its own ledger: once the events of a counter adjudication
/// of its opinion are applied at `tick`, the author's history is its old
/// history, then the penalty for the false claim, then whatever the author
/// earned as an attester of that same claim.
pub proof fn lemma_liar_recorded(
    m: Map<Seq<char>, Seq<LedgerEntry>>,
    author: Seq<char>,
    atts: Seq<AttestationView>,
    required: nat,
    tick: u32,
)
    requires
        outcome_count(atts, countered_text()) >= required,
    ensures
        history(applied(m, adjudication_events(author, atts, Lens::Opinion, required), tick), author)
            == history(m, author).push(LedgerEntry { tick, kind: ReputationKind::ClaimFalse })
            + entries_for(counter_events(author, atts).drop_first(), author, tick),
{
    lemma_liar_pays(author, atts, required);
    let ev = counter_events(author, atts);
    let head = seq![ReputationEventView { agent_id: author, kind: ReputationKind::ClaimFalse }];
    let tail = ev.drop_first();
    assert(ev =~= head + tail);
    lemma_applied_histories(m, ev, tick, author);
    lemma_entries_for_concat(head, tail, author, tick);
    assert(head.drop_last() =~= Seq::<ReputationEventView>::empty());
    assert(entries_for(head.drop_last(), author, tick) =~= Seq::<LedgerEntry>::empty());
    assert(head.last().agent_id == author);
    assert(entries_for(head, author, tick) =~= seq![LedgerEntry { tick, kind: ReputationKind::ClaimFalse }]);
    assert(history(m, author).push(LedgerEntry { tick, kind: ReputationKind::ClaimFalse }) + entries_for(
        tail,
        author,
        tick,
    ) =~= history(m, author) + (entries_for(head, author, tick) + entries_for(tail, author, tick)));
}

} // verus!
