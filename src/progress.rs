//! Throughput figures for a running search: attempts per second and a rough
//! estimate of the time left, all in integers.

use vstd::arithmetic::power::{lemma_pow_increases, pow};
use vstd::prelude::*;

verus! {

/// Number of symbols in the base58 alphabet.
pub const ALPHABET_SIZE: u128 = 58;

/// Number of base58 texts of `len` characters, held at `u128::MAX`.
pub open spec fn keyspace(len: nat) -> int {
    if pow(ALPHABET_SIZE as int, len) <= u128::MAX {
        pow(ALPHABET_SIZE as int, len)
    } else {
        u128::MAX as int
    }
}

/// The size of the space that a target of `pattern_len` characters is drawn
/// from: 58 to the power `pattern_len`, held at `u128::MAX`.
pub fn keyspace_size(pattern_len: u32) -> (r: u128)
    ensures
        r == keyspace(pattern_len as nat),
{
    let mut acc: u128 = 1;
    let mut i: u32 = 0;
    assert(pow(ALPHABET_SIZE as int, 0) == 1) by {
        reveal(pow);
    }
    while i < pattern_len
        invariant
            i <= pattern_len,
            acc == pow(ALPHABET_SIZE as int, i as nat),
        decreases pattern_len - i,
    {
        proof {
            reveal(pow);
        }
        assert(pow(ALPHABET_SIZE as int, (i + 1) as nat) == ALPHABET_SIZE * acc);
        if acc > u128::MAX / ALPHABET_SIZE {
            proof {
                assert(ALPHABET_SIZE * acc > u128::MAX) by (nonlinear_arith)
                    requires
                        acc > u128::MAX / ALPHABET_SIZE,
                        ALPHABET_SIZE == 58,
                ;
                lemma_pow_increases(ALPHABET_SIZE as nat, (i + 1) as nat, pattern_len as nat);
            }
            return u128::MAX;
        }
        assert(ALPHABET_SIZE * acc <= u128::MAX) by (nonlinear_arith)
            requires
                acc <= u128::MAX / ALPHABET_SIZE,
                ALPHABET_SIZE == 58,
        ;
        acc = ALPHABET_SIZE * acc;
        i += 1;
    }
    acc
}

/// One progress reading.
pub struct ProgressReport {
    /// Attempts counted so far.
    pub attempts: u64,
    /// Attempts per second, rounded down; `None` when no time has passed.
    pub attempts_per_second: Option<u128>,
    /// Keyspace size over the rate, in seconds: a statistical estimate, not a
    /// deadline; `None` when the rate is unknown or zero.
    pub estimated_remaining_secs: Option<u128>,
}

/// The rate that `attempts` in `elapsed_millis` milliseconds make.
pub open spec fn rate_of(attempts: u64, elapsed_millis: u64) -> Option<u128> {
    if elapsed_millis == 0 {
        None
    } else {
        Some((attempts as int * 1000 / elapsed_millis as int) as u128)
    }
}

/// Builds a progress reading from the attempt counter and the time spent.
pub fn progress_report(attempts: u64, elapsed_millis: u64, pattern_len: u32) -> (r: ProgressReport)
    ensures
        r.attempts == attempts,
        r.attempts_per_second == rate_of(attempts, elapsed_millis),
        r.estimated_remaining_secs == (match rate_of(attempts, elapsed_millis) {
            Some(rate) => if rate > 0 {
                Some((keyspace(pattern_len as nat) / rate as int) as u128)
            } else {
                None
            },
            None => None,
        }),
{
    let rate = if elapsed_millis == 0 {
        None
    } else {
        Some((attempts as u128) * 1000 / (elapsed_millis as u128))
    };
    let remaining = match rate {
        Some(per_second) => if per_second > 0 {
            Some(keyspace_size(pattern_len) / per_second)
        } else {
            None
        },
        None => None,
    };
    ProgressReport { attempts, attempts_per_second: rate, estimated_remaining_secs: remaining }
}

} // verus!
