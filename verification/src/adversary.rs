//! Adversaries planted to test the swarm: the cap on their number and the
//! tally of how many the swarm has detected.

use vstd::prelude::*;

verus! {

/// The most adversaries a manager spawns.
pub const MAX_ADVERSARIES: usize = 5;

/// What the tally reads of one adversary.
#[derive(Debug, Clone, Copy, PartialEq, Eq, Structural)]
pub struct AdversaryStatus {
    pub alive: bool,
    /// Whether its reputation has fallen below the quarantine threshold.
    pub quarantined: bool,
    pub malicious_acts: u32,
}

/// The detection statistics of a set of adversaries.
#[derive(Debug, Clone, Copy, PartialEq, Eq, Structural)]
pub struct AdversaryTally {
    pub total_spawned: usize,
    pub alive: usize,
    pub detected: usize,
    pub undetected: usize,
    pub total_malicious_acts: u32,
}

/// The number of living adversaries among `s`.
pub open spec fn alive_count(s: Seq<AdversaryStatus>) -> nat
    decreases s.len(),
{
    if s.len() == 0 {
        0
    } else {
        alive_count(s.drop_last()) + if s.last().alive {
            1nat
        } else {
            0nat
        }
    }
}

/// The number of quarantined adversaries among `s`, living or dead.
pub open spec fn detected_count(s: Seq<AdversaryStatus>) -> nat
    decreases s.len(),
{
    if s.len() == 0 {
        0
    } else {
        detected_count(s.drop_last()) + if s.last().quarantined {
            1nat
        } else {
            0nat
        }
    }
}

/// The malicious acts of all adversaries among `s`.
pub open spec fn acts_total(s: Seq<AdversaryStatus>) -> nat
    decreases s.len(),
{
    if s.len() == 0 {
        0
    } else {
        acts_total(s.drop_last()) + s.last().malicious_acts as nat
    }
}

/// Counts are monotone along prefixes.
proof fn lemma_counts_monotone(s: Seq<AdversaryStatus>, i: int)
    requires
        0 <= i <= s.len(),
    ensures
        acts_total(s.take(i)) <= acts_total(s),
        alive_count(s.take(i)) <= i,
        detected_count(s.take(i)) <= i,
    decreases s.len() - i,
{
    if i < s.len() {
        lemma_counts_monotone(s, i + 1);
        assert(s.take(i + 1).drop_last() =~= s.take(i));
    } else {
        assert(s.take(i) =~= s);
    }
    if i > 0 {
        lemma_counts_monotone_len(s.take(i));
    }
}

/// Counts never exceed the number of adversaries.
proof fn lemma_counts_monotone_len(s: Seq<AdversaryStatus>)
    ensures
        alive_count(s) <= s.len(),
        detected_count(s) <= s.len(),
    decreases s.len(),
{
    if s.len() > 0 {
        lemma_counts_monotone_len(s.drop_last());
    }
}

/// The detection statistics of `statuses`: how many were spawned, live, are
/// detected (quarantined), are live and undetected, and the malicious acts in
/// all.
pub fn tally(statuses: &Vec<AdversaryStatus>) -> (r: AdversaryTally)
    requires
        detected_count(statuses@) <= alive_count(statuses@),
        acts_total(statuses@) <= u32::MAX,
    ensures
        r.total_spawned == statuses@.len(),
        r.alive == alive_count(statuses@),
        r.detected == detected_count(statuses@),
        r.undetected == alive_count(statuses@) - detected_count(statuses@),
        r.total_malicious_acts == acts_total(statuses@),
{
    let ghost s = statuses@;
    let mut alive: usize = 0;
    let mut detected: usize = 0;
    let mut acts: u32 = 0;
    let mut i: usize = 0;
    while i < statuses.len()
        invariant
            s == statuses@,
            0 <= i <= s.len(),
            acts_total(s) <= u32::MAX,
            alive == alive_count(s.take(i as int)),
            detected == detected_count(s.take(i as int)),
            acts == acts_total(s.take(i as int)),
        decreases statuses.len() - i,
    {
        assert(s.take(i + 1).drop_last() =~= s.take(i as int));
        proof {
            lemma_counts_monotone(s, i + 1);
        }
        let st = statuses[i];
        if st.alive {
            alive = alive + 1;
        }
        if st.quarantined {
            detected = detected + 1;
        }
        acts = acts + st.malicious_acts;
        i = i + 1;
    }
    assert(s.take(statuses.len() as int) =~= s);
    AdversaryTally {
        total_spawned: statuses.len(),
        alive,
        detected,
        undetected: alive - detected,
        total_malicious_acts: acts,
    }
}

/// Whether an adversary is quarantined.
pub open spec fn is_quarantined() -> spec_fn(AdversaryStatus) -> bool {
    |x: AdversaryStatus| x.quarantined
}

/// Whether an adversary is alive.
pub open spec fn is_alive() -> spec_fn(AdversaryStatus) -> bool {
    |x: AdversaryStatus| x.alive
}

/// The tally's counts in terms of the adversaries themselves: the living are
/// those alive, and the detected are all those quarantined, living or dead.
pub proof fn lemma_tally_counts(s: Seq<AdversaryStatus>)
    ensures
        alive_count(s) == s.filter(is_alive()).len(),
        detected_count(s) == s.filter(is_quarantined()).len(),
    decreases s.len(),
{
    reveal(Seq::filter);
    if s.len() > 0 {
        lemma_tally_counts(s.drop_last());
    }
}

/// Appending an adversary adds one to the detected count exactly when it is
/// quarantined, whether or not it is alive, and one to the living count
/// exactly when it is alive.
pub proof fn lemma_tally_push(s: Seq<AdversaryStatus>, x: AdversaryStatus)
    ensures
        detected_count(s.push(x)) == detected_count(s) + if x.quarantined {
            1int
        } else {
            0int
        },
        alive_count(s.push(x)) == alive_count(s) + if x.alive {
            1int
        } else {
            0int
        },
        acts_total(s.push(x)) == acts_total(s) + x.malicious_acts,
{
    lemma_tally_counts(s);
    lemma_tally_counts(s.push(x));
    reveal(Seq::filter);
    assert(s.push(x).drop_last() =~= s);
}

} // verus!
