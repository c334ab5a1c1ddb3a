//! The generic timer: converting counter ticks to nanoseconds.
//!
//! The counter itself (CNTPCT_EL0) and its frequency (CNTFRQ_EL0)
//! are read by the embedder; the conversion and its monotonicity are
//! proved here.

use vstd::prelude::*;

verus! {

pub const NANOS_PER_SEC: u64 = 1_000_000_000;

/// What a tick count means in nanoseconds at counter frequency
/// `freq`.
pub open spec fn spec_ticks_to_nanos(ticks: u64, freq: u64) -> int {
    (ticks * NANOS_PER_SEC) / (freq as int)
}

/// Convert counter ticks to nanoseconds. The product is taken at
/// double width, so every counter value converts; a result beyond
/// the 64-bit range saturates, which keeps the conversion monotone.
pub fn ticks_to_nanos(ticks: u64, freq: u64) -> (r: u64)
    requires
        freq > 0,
    ensures
        r == (if spec_ticks_to_nanos(ticks, freq) > u64::MAX {
            u64::MAX as int
        } else {
            spec_ticks_to_nanos(ticks, freq)
        }),
{
    let wide: u128 = ((ticks as u128) * (NANOS_PER_SEC as u128)) / (freq as u128);
    if wide > u64::MAX as u128 {
        u64::MAX
    } else {
        wide as u64
    }
}

/// The current time in nanoseconds since the counter started, from
/// one counter read.
pub fn current_time(ticks: u64, freq: u64) -> (r: u64)
    requires
        freq > 0,
    ensures
        r == (if spec_ticks_to_nanos(ticks, freq) > u64::MAX {
            u64::MAX as int
        } else {
            spec_ticks_to_nanos(ticks, freq)
        }),
{
    ticks_to_nanos(ticks, freq)
}

/// Tick-to-nanosecond conversion never runs backwards: of two
/// counter reads, the later one converts to at least as many
/// nanoseconds. The architecture promises that the counter itself
/// only grows, so times taken from successive reads never decrease.
pub proof fn lemma_ticks_to_nanos_monotonic(t1: u64, t2: u64, freq: u64)
    requires
        freq > 0,
        t1 <= t2,
    ensures
        spec_ticks_to_nanos(t1, freq) <= spec_ticks_to_nanos(t2, freq),
        (if spec_ticks_to_nanos(t1, freq) > u64::MAX {
            u64::MAX as int
        } else {
            spec_ticks_to_nanos(t1, freq)
        }) <= (if spec_ticks_to_nanos(t2, freq) > u64::MAX {
            u64::MAX as int
        } else {
            spec_ticks_to_nanos(t2, freq)
        }),
{
    assert(t1 * NANOS_PER_SEC <= t2 * NANOS_PER_SEC) by (nonlinear_arith)
        requires
            t1 <= t2,
    ;
    assert((t1 * NANOS_PER_SEC) / (freq as int) <= (t2 * NANOS_PER_SEC) / (freq as int))
        by (nonlinear_arith)
        requires
            freq > 0,
            t1 * NANOS_PER_SEC <= t2 * NANOS_PER_SEC,
            t1 >= 0,
    ;
}

} // verus!
