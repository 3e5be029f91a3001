//! The state that one search shares among its workers, as a value: the
//! cancellation flag, the attempt counter and the result slot, with the
//! transitions that workers and callers make on it.

use crate::keys::SearchResult;
use vstd::prelude::*;

verus! {

/// Shared state of one search.
pub struct SearchState {
    pub cancelled: bool,
    pub attempts: u64,
    pub result: Option<SearchResult>,
}

/// One operation on the shared state.
pub enum SearchEvent {
    /// A worker starts this many attempts.
    Attempts(u64),
    /// A worker offers a matching candidate for the result slot.
    Claim(SearchResult),
    /// The caller stops the search.
    Abort,
}

/// `a + b`, held at `u64::MAX`.
pub open spec fn saturating_sum(a: u64, b: u64) -> u64 {
    if a + b <= u64::MAX {
        (a + b) as u64
    } else {
        u64::MAX
    }
}

/// What one operation does: attempts are counted only before cancellation;
/// a claim fills the slot only while it is empty, and cancels either way.
pub open spec fn step(s: SearchState, e: SearchEvent) -> SearchState {
    match e {
        SearchEvent::Attempts(k) => if s.cancelled {
            s
        } else {
            SearchState { attempts: saturating_sum(s.attempts, k), ..s }
        },
        SearchEvent::Claim(r) => SearchState {
            cancelled: true,
            result: if s.result is None {
                Some(r)
            } else {
                s.result
            },
            ..s
        },
        SearchEvent::Abort => SearchState { cancelled: true, ..s },
    }
}

/// The state after a sequence of operations, first to last.
pub open spec fn run(s: SearchState, events: Seq<SearchEvent>) -> SearchState
    decreases events.len(),
{
    if events.len() == 0 {
        s
    } else {
        run(step(s, events[0]), events.drop_first())
    }
}

/// The candidate of the first claim in `events`, if there is one.
pub open spec fn first_claim(events: Seq<SearchEvent>) -> Option<SearchResult>
    decreases events.len(),
{
    if events.len() == 0 {
        None
    } else {
        match events[0] {
            SearchEvent::Claim(r) => Some(r),
            _ => first_claim(events.drop_first()),
        }
    }
}

impl SearchState {
    /// A filled slot implies cancellation.
    pub open spec fn inv(&self) -> bool {
        self.result is Some ==> self.cancelled
    }

    /// The state at the start of a search.
    pub open spec fn initial() -> SearchState {
        SearchState { cancelled: false, attempts: 0, result: None }
    }

    pub fn new() -> (r: SearchState)
        ensures
            r == SearchState::initial(),
            r.inv(),
    {
        SearchState { cancelled: false, attempts: 0, result: None }
    }

    /// Counts `k` attempts unless the search is cancelled; says whether they
    /// may go ahead.
    pub fn begin_attempts(&mut self, k: u64) -> (go: bool)
        ensures
            go == !old(self).cancelled,
            *final(self) == step(*old(self), SearchEvent::Attempts(k)),
    {
        if self.cancelled {
            return false;
        }
        self.attempts = if k <= u64::MAX - self.attempts {
            self.attempts + k
        } else {
            u64::MAX
        };
        true
    }

    /// Offers `r` for the result slot; says whether it was taken. Only the
    /// first claim fills the slot; every claim cancels the search.
    pub fn claim(&mut self, r: SearchResult) -> (won: bool)
        ensures
            won == old(self).result is None,
            *final(self) == step(*old(self), SearchEvent::Claim(r)),
    {
        self.cancelled = true;
        if self.result.is_none() {
            self.result = Some(r);
            true
        } else {
            false
        }
    }

    /// Cancels the search without a result.
    pub fn abort(&mut self)
        ensures
            *final(self) == step(*old(self), SearchEvent::Abort),
    {
        self.cancelled = true;
    }
}

/// Every operation keeps the invariant.
pub proof fn lemma_step_keeps_inv(s: SearchState, e: SearchEvent)
    requires
        s.inv(),
    ensures
        step(s, e).inv(),
{
}

/// Running a prefix and then the rest is running the whole sequence.
pub proof fn lemma_run_split(s: SearchState, events: Seq<SearchEvent>, i: int)
    requires
        0 <= i <= events.len(),
    ensures
        run(s, events) == run(run(s, events.take(i)), events.skip(i)),
    decreases i,
{
    if i > 0 {
        assert(events.take(i).drop_first() == events.drop_first().take(i - 1));
        assert(events.skip(i) == events.drop_first().skip(i - 1));
        lemma_run_split(step(s, events[0]), events.drop_first(), i - 1);
    } else {
        assert(events.skip(0) == events);
    }
}

proof fn lemma_run_facts(s: SearchState, events: Seq<SearchEvent>)
    ensures
        run(s, events).attempts >= s.attempts,
        s.cancelled ==> run(s, events).cancelled && run(s, events).attempts == s.attempts,
        s.result is Some ==> run(s, events).result == s.result,
        s.result is None ==> run(s, events).result == first_claim(events),
    decreases events.len(),
{
    if events.len() > 0 {
        lemma_run_facts(step(s, events[0]), events.drop_first());
    }
}

/// The attempt counter never goes down: read after more operations, in any
/// interleaving, it is at least what it was.
pub proof fn lemma_attempts_monotone(s: SearchState, events: Seq<SearchEvent>, i: int, j: int)
    requires
        0 <= i <= j <= events.len(),
    ensures
        run(s, events.take(i)).attempts <= run(s, events.take(j)).attempts,
{
    let pre = events.take(j);
    lemma_run_split(s, pre, i);
    assert(pre.take(i) == events.take(i));
    lemma_run_facts(run(s, events.take(i)), pre.skip(i));
}

/// The result slot is written at most once: once it holds a candidate, every
/// later state holds the same one; and from an empty slot, the candidate that
/// ends up there is the one of the first claim.
pub proof fn lemma_claim_once(s: SearchState, events: Seq<SearchEvent>, i: int, j: int)
    requires
        0 <= i <= j <= events.len(),
    ensures
        run(s, events.take(i)).result is Some ==> run(s, events.take(j)).result == run(
            s,
            events.take(i),
        ).result,
        s.result is None ==> run(s, events).result == first_claim(events),
{
    let pre = events.take(j);
    lemma_run_split(s, pre, i);
    assert(pre.take(i) == events.take(i));
    lemma_run_facts(run(s, events.take(i)), pre.skip(i));
    lemma_run_facts(s, events);
}

/// Once the search is cancelled it stays cancelled, and no further attempt
/// is counted.
pub proof fn lemma_no_attempts_after_cancel(s: SearchState, events: Seq<SearchEvent>, i: int, j: int)
    requires
        0 <= i <= j <= events.len(),
        run(s, events.take(i)).cancelled,
    ensures
        run(s, events.take(j)).cancelled,
        run(s, events.take(j)).attempts == run(s, events.take(i)).attempts,
{
    let pre = events.take(j);
    lemma_run_split(s, pre, i);
    assert(pre.take(i) == events.take(i));
    lemma_run_facts(run(s, events.take(i)), pre.skip(i));
}

} // verus!
