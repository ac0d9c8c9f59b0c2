//! Exponential backoff between connection attempts.

use vstd::prelude::*;

verus! {

/// Largest exponent the delay grows to.
pub const BACKOFF_CAP: u32 = 6;

/// Lower bound of the jitter factor, in thousandths.
pub const JITTER_MIN: u64 = 500;

/// Upper bound (exclusive) of the jitter factor, in thousandths.
pub const JITTER_MAX: u64 = 1500;

/// Two to the power `n`.
pub open spec fn pow2(n: nat) -> nat
    decreases n,
{
    if n == 0 {
        1
    } else {
        2 * pow2((n - 1) as nat)
    }
}

/// The exponent used for a given attempt counter: the counter itself, held at the cap.
pub open spec fn backoff_exponent(attempt: u32) -> nat {
    if attempt < BACKOFF_CAP {
        attempt as nat
    } else {
        BACKOFF_CAP as nat
    }
}

/// The delay before jitter, in milliseconds: `min(2^attempt, 2^cap) * 1000`.
pub open spec fn backoff_base_ms_spec(attempt: u32) -> nat {
    pow2(backoff_exponent(attempt)) * 1000
}

/// The delay after jitter: the base delay scaled by `jitter / 1000`, rounded down.
pub open spec fn backoff_delay_ms_spec(attempt: u32, jitter: u64) -> nat {
    backoff_base_ms_spec(attempt) * (jitter as nat) / 1000
}

/// The counter after one more failed attempt: one more, held at `u32::MAX`.
pub open spec fn next_attempt_spec(attempt: u32) -> u32 {
    if attempt == u32::MAX {
        attempt
    } else {
        (attempt + 1) as u32
    }
}

pub proof fn lemma_pow2_values()
    ensures
        pow2(0) == 1,
        pow2(1) == 2,
        pow2(2) == 4,
        pow2(3) == 8,
        pow2(4) == 16,
        pow2(5) == 32,
        pow2(6) == 64,
{
    reveal_with_fuel(pow2, 8);
}

/// Counts one more failed attempt.
pub fn next_attempt(attempt: u32) -> (next: u32)
    ensures
        next == next_attempt_spec(attempt),
{
    attempt.saturating_add(1)
}

/// The delay before jitter for `attempt`, in milliseconds.
pub fn backoff_base_ms(attempt: u32) -> (ms: u64)
    ensures
        ms == backoff_base_ms_spec(attempt),
        1000 <= ms <= 64000,
{
    let exponent: u32 = if attempt < BACKOFF_CAP { attempt } else { BACKOFF_CAP };
    let mut base: u64 = 1;
    let mut i: u32 = 0;
    proof {
        lemma_pow2_values();
    }
    while i < exponent
        invariant
            i <= exponent <= BACKOFF_CAP,
            base == pow2(i as nat),
            base <= 64,
        decreases exponent - i,
    {
        proof {
            lemma_pow2_values();
            reveal_with_fuel(pow2, 2);
        }
        base = base * 2;
        i = i + 1;
    }
    base * 1000
}

/// The delay for `attempt` with the jitter factor `jitter / 1000` applied.
pub fn backoff_delay_ms(attempt: u32, jitter: u64) -> (ms: u64)
    requires
        JITTER_MIN <= jitter < JITTER_MAX,
    ensures
        ms == backoff_delay_ms_spec(attempt, jitter),
        2 * ms >= backoff_base_ms_spec(attempt),
        2 * ms < 3 * backoff_base_ms_spec(attempt),
{
    let base: u64 = backoff_base_ms(attempt);
    assert(base * jitter <= 64000 * 1500) by (nonlinear_arith)
        requires
            base <= 64000,
            jitter < 1500,
    ;
    let scaled: u64 = base * jitter;
    assert(scaled >= base * 500) by (nonlinear_arith)
        requires
            scaled == base * jitter,
            jitter >= 500,
    ;
    assert(scaled < base * 1500) by (nonlinear_arith)
        requires
            scaled == base * jitter,
            jitter < 1500,
            base >= 1000,
    ;
    scaled / 1000
}

/// The delay before jitter never shrinks as the attempt counter grows.
pub proof fn backoff_monotonic(a: u32, b: u32)
    requires
        a <= b,
    ensures
        backoff_base_ms_spec(a) <= backoff_base_ms_spec(b),
{
    lemma_pow2_values();
}

/// Once the counter has reached the cap the delay before jitter stays the same.
pub proof fn backoff_constant_at_cap(a: u32, b: u32)
    requires
        a >= BACKOFF_CAP,
        b >= BACKOFF_CAP,
    ensures
        backoff_base_ms_spec(a) == backoff_base_ms_spec(b),
        backoff_base_ms_spec(a) == 64000,
{
    lemma_pow2_values();
}

} // verus!
