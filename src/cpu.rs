//! The CPU coordinator: a fixed number of workers on rayon's thread pool,
//! all sharing one search.

use crate::keys::SearchResult;
use crate::pattern::{is_match, TargetPattern};
use crate::search::{outcome_ok, run_worker, Search, WorkerOutcome};
use rayon::iter::{IndexedParallelIterator, IntoParallelIterator, ParallelIterator};
use vstd::prelude::*;

verus! {

/// Relies on rayon's `into_par_iter` over `0..count`, `map` and
/// `collect_into_vec`: `f` is called once on each index, on the global thread
/// pool, and the results come back in index order.
#[verifier::external_body]
fn run_parallel<R, F>(count: u32, f: F) -> (r: Vec<R>) where R: Send, F: Fn(u32) -> R + Sync + Send
    requires
        forall|i: u32| i < count ==> f.requires((i,)),
    ensures
        r.len() == count,
        forall|i: int| 0 <= i < count ==> f.ensures((i as u32,), #[trigger] r[i]),
{
    let mut out = Vec::new();
    (0..count).into_par_iter().map(f).collect_into_vec(&mut out);
    out
}

/// Runs `count` workers on `search` and waits for all of them. Each outcome
/// that carries a candidate carries a derived, matching one.
pub fn run_workers(search: &Search, count: u32) -> (r: Vec<WorkerOutcome>)
    ensures
        r.len() == count,
        forall|i: int| 0 <= i < count ==> outcome_ok(#[trigger] r[i], search.target()),
{
    let work = |_worker: u32| -> (o: WorkerOutcome)
        ensures
            outcome_ok(o, search.target()),
        {
            run_worker(search)
        };
    run_parallel(count, work)
}

/// Searches with `num_threads` workers for a key whose base58 public key
/// starts with `target` (ignoring ASCII case if asked). Returns the one
/// claimed result, if a worker claimed one: its key material is consistent
/// and its text matches.
pub fn grind(target: String, case_insensitive: bool, num_threads: u32) -> (r: Option<SearchResult>)
    ensures
        r matches Some(res) ==> res.is_derived() && is_match(res.encoded@, target@, case_insensitive),
{
    let search = Search::new(TargetPattern { text: target, case_insensitive });
    let _outcomes = run_workers(&search, num_threads);
    search.into_result()
}

} // verus!
