//! One search shared by many workers: its state sits behind a lock whose
//! invariant says that a filled slot holds a derived candidate that matches
//! the target.

use crate::keys::{base58_of, candidate_from_seed, generate_candidate, public_id_of, SearchResult};
use crate::pattern::TargetPattern;
use crate::state::SearchState;
use vstd::prelude::*;
use vstd::rwlock::RwLock;

verus! {

/// What a state behind the lock of a search for `pattern` satisfies.
pub open spec fn slot_ok(s: SearchState, pattern: TargetPattern) -> bool {
    &&& s.inv()
    &&& s.result matches Some(r) ==> r.is_derived() && pattern.accepts(r.encoded@)
}

/// A search in progress, shared by reference among its workers.
pub struct Search {
    pattern: TargetPattern,
    slot: RwLock<SearchState, spec_fn(SearchState) -> bool>,
}

/// How a worker ended.
pub enum WorkerOutcome {
    /// The worker found `result`; `claimed` says whether it filled the slot
    /// or another worker had been first.
    Found { result: SearchResult, claimed: bool },
    /// The worker saw the search cancelled.
    Stopped,
    /// The worker ran its whole budget of attempts without a match.
    Exhausted,
}

/// A worker's outcome is consistent with the target: a candidate it carries
/// is derived from its seed and matches.
pub open spec fn outcome_ok(o: WorkerOutcome, pattern: TargetPattern) -> bool {
    o matches WorkerOutcome::Found { result, .. } ==> result.is_derived() && pattern.accepts(
        result.encoded@,
    )
}

impl Search {
    #[verifier::type_invariant]
    spec fn wf(self) -> bool {
        forall|s: SearchState| #[trigger] self.slot.inv(s) == slot_ok(s, self.pattern)
    }

    /// The target this search is for.
    pub closed spec fn target(&self) -> TargetPattern {
        self.pattern
    }

    /// A fresh search: not cancelled, no attempts, an empty slot.
    pub fn new(pattern: TargetPattern) -> (r: Search)
        ensures
            r.target() == pattern,
    {
        let ghost p = pattern;
        let slot = RwLock::new(
            SearchState::new(),
            Ghost(|s: SearchState| slot_ok(s, p)),
        );
        Search { pattern, slot }
    }

    /// The target pattern.
    pub fn pattern(&self) -> (r: &TargetPattern)
        ensures
            *r == self.target(),
    {
        &self.pattern
    }

    /// Counts `k` attempts unless the search is cancelled; says whether they
    /// may go ahead. This is `SearchState::begin_attempts`, made in one step
    /// under the lock: what other workers do meanwhile decides the answer.
    pub fn begin_attempts(&self, k: u64) -> (go: bool) {
        proof {
            use_type_invariant(self);
        }
        let (mut st, handle) = self.slot.acquire_write();
        let go = st.begin_attempts(k);
        handle.release_write(st);
        go
    }

    /// Offers a matching candidate for the result slot; says whether it was
    /// taken. The search is cancelled either way. This is
    /// `SearchState::claim` under the lock, so only the first claim of the
    /// search fills the slot.
    pub fn claim(&self, r: SearchResult) -> (won: bool)
        requires
            r.is_derived(),
            self.target().accepts(r.encoded@),
    {
        proof {
            use_type_invariant(self);
        }
        let (mut st, handle) = self.slot.acquire_write();
        let won = st.claim(r);
        handle.release_write(st);
        won
    }

    /// Cancels the search (`SearchState::abort` under the lock).
    pub fn abort(&self) {
        proof {
            use_type_invariant(self);
        }
        let (mut st, handle) = self.slot.acquire_write();
        st.abort();
        handle.release_write(st);
    }

    /// Whether the search has been cancelled.
    pub fn is_cancelled(&self) -> bool {
        let handle = self.slot.acquire_read();
        let c = handle.borrow().cancelled;
        handle.release_read();
        c
    }

    /// The number of attempts counted so far.
    pub fn attempts(&self) -> u64 {
        let handle = self.slot.acquire_read();
        let n = handle.borrow().attempts;
        handle.release_read();
        n
    }

    /// Ends the search and hands out the claimed candidate, if any: it is
    /// derived from its seed and matches the target.
    pub fn into_result(self) -> (r: Option<SearchResult>)
        ensures
            r matches Some(res) ==> res.is_derived() && self.target().accepts(res.encoded@),
    {
        proof {
            use_type_invariant(&self);
        }
        let st = self.slot.into_inner();
        st.result
    }
}

/// A worker's decision on one candidate: `None` when it does not match, so
/// that the worker goes on; otherwise the candidate is claimed and the worker
/// stops with it.
pub fn consider_candidate(search: &Search, candidate: SearchResult) -> (o: Option<WorkerOutcome>)
    requires
        candidate.is_derived(),
    ensures
        o is None <==> !search.target().accepts(candidate.encoded@),
        o matches Some(WorkerOutcome::Found { result, .. }) ==> result == candidate,
        o is Some ==> o matches Some(WorkerOutcome::Found { .. }),
{
    if crate::pattern::matches(candidate.encoded.as_str(), search.pattern()) {
        let found = candidate.duplicate();
        let claimed = search.claim(candidate);
        Some(WorkerOutcome::Found { result: found, claimed })
    } else {
        None
    }
}

/// One worker: until the search is cancelled, generate a candidate, count it
/// and test it; on a match, claim the slot and stop. Cancellation is checked
/// before every attempt, in the same step that counts it, so that no attempt
/// is counted once the search is cancelled. The worker gives up after
/// `u64::MAX` attempts of its own.
pub fn run_worker(search: &Search) -> (o: WorkerOutcome)
    ensures
        outcome_ok(o, search.target()),
{
    let mut done: u64 = 0;
    while done < u64::MAX
        decreases u64::MAX - done,
    {
        if !search.begin_attempts(1) {
            return WorkerOutcome::Stopped;
        }
        let candidate = generate_candidate();
        done += 1;
        let decision = consider_candidate(search, candidate);
        if let Some(outcome) = decision {
            return outcome;
        }
    }
    WorkerOutcome::Exhausted
}

/// Whether the candidate of `seed` matches the target.
pub open spec fn seed_accepted(seed: Seq<u8>, pattern: TargetPattern) -> bool {
    pattern.accepts(base58_of(public_id_of(seed)))
}

/// Entry `i` of a batch is flagged by the executor and its seed really
/// matches.
pub open spec fn confirmed_hit(batch: Seq<([u8; 32], bool)>, pattern: TargetPattern, i: int) -> bool {
    &&& 0 <= i < batch.len()
    &&& batch[i].1
    &&& seed_accepted(batch[i].0@, pattern)
}

/// How the reconciliation of one batch ended.
pub enum BatchOutcome {
    /// The first confirmed entry; `claimed` says whether it filled the slot.
    Found { result: SearchResult, claimed: bool },
    /// No flagged entry matches.
    NoMatch,
    /// The search was cancelled before the batch was counted.
    Stopped,
}

/// Takes one batch from an executor of many candidates at once: counts its
/// entries as attempts, then re-derives the seed of each entry that the
/// executor flagged and tests it against the target; the flag alone is never
/// trusted. The first entry that passes is claimed.
pub fn reconcile_batch(search: &Search, batch: &Vec<([u8; 32], bool)>) -> (o: BatchOutcome)
    ensures
        o is NoMatch ==> forall|i: int| !confirmed_hit(batch@, search.target(), i),
        o matches BatchOutcome::Found { result, .. } ==> exists|i: int|
            {
                &&& confirmed_hit(batch@, search.target(), i)
                &&& forall|j: int| 0 <= j < i ==> !confirmed_hit(batch@, search.target(), j)
                &&& result.seed@ == batch@[i].0@
                &&& result.is_derived()
            },
{
    if !search.begin_attempts(batch.len() as u64) {
        return BatchOutcome::Stopped;
    }
    let pattern = search.pattern();
    let mut i: usize = 0;
    while i < batch.len()
        invariant
            *pattern == search.target(),
            i <= batch.len(),
            forall|j: int| 0 <= j < i ==> !confirmed_hit(batch@, search.target(), j),
        decreases batch.len() - i,
    {
        let (seed, flagged) = batch[i];
        if flagged {
            let candidate = candidate_from_seed(seed);
            if crate::pattern::matches(candidate.encoded.as_str(), pattern) {
                assert(confirmed_hit(batch@, search.target(), i as int));
                let found = candidate.duplicate();
                let claimed = search.claim(candidate);
                return BatchOutcome::Found { result: found, claimed };
            }
        }
        i += 1;
    }
    BatchOutcome::NoMatch
}

} // verus!
