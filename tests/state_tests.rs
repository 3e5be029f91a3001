use vanity_grind::keys::candidate_from_seed;
use vanity_grind::state::SearchState;

#[test]
fn new_state_is_empty() {
    let s = SearchState::new();
    assert!(!s.cancelled);
    assert_eq!(s.attempts, 0);
    assert!(s.result.is_none());
}

#[test]
fn attempts_count_until_cancelled() {
    let mut s = SearchState::new();
    assert!(s.begin_attempts(1));
    assert!(s.begin_attempts(10));
    assert_eq!(s.attempts, 11);
    s.abort();
    assert!(s.cancelled);
    assert!(!s.begin_attempts(5));
    assert_eq!(s.attempts, 11);
    assert!(s.result.is_none());
}

#[test]
fn attempts_saturate_at_max() {
    let mut s = SearchState::new();
    assert!(s.begin_attempts(u64::MAX - 1));
    assert!(s.begin_attempts(5));
    assert_eq!(s.attempts, u64::MAX);
    assert!(s.begin_attempts(1));
    assert_eq!(s.attempts, u64::MAX);
}

#[test]
fn only_first_claim_fills_slot() {
    let mut s = SearchState::new();
    s.begin_attempts(3);
    let first = candidate_from_seed([1u8; 32]);
    let second = candidate_from_seed([2u8; 32]);
    let first_seed = first.seed;
    assert!(s.claim(first));
    assert!(s.cancelled);
    assert!(!s.claim(second));
    assert_eq!(s.result.as_ref().unwrap().seed, first_seed);
    assert!(!s.begin_attempts(1));
    assert_eq!(s.attempts, 3);
}

#[test]
fn claim_after_abort_still_fills_empty_slot() {
    let mut s = SearchState::new();
    s.abort();
    assert!(s.claim(candidate_from_seed([4u8; 32])));
    assert!(s.result.is_some());
}

#[test]
fn counter_readings_never_decrease() {
    let mut s = SearchState::new();
    let mut last = s.attempts;
    for k in [1u64, 0, 7, 2, 100] {
        s.begin_attempts(k);
        assert!(s.attempts >= last);
        last = s.attempts;
    }
    s.claim(candidate_from_seed([9u8; 32]));
    s.begin_attempts(50);
    assert_eq!(s.attempts, last);
}
