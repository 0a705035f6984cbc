//! Exponential backoff of failing threads.

use vstd::prelude::*;
use vstd::arithmetic::power2::{
    lemma2_to64, lemma2_to64_rest, lemma_pow2_pos, lemma_pow2_strictly_increases,
    lemma_pow2_unfold, pow2,
};
use crate::types::ExecutableThreadMetadata;

verus! {

/// The slot from which a thread with the given retry metadata may be
/// attempted again: its due slot pushed back exponentially in the number of
/// accumulated build failures.
pub open spec fn spec_backoff_threshold(due_slot: u64, simulation_failures: u32) -> int {
    due_slot + pow2(simulation_failures as nat) - 1
}

/// 2^e for shift-sized exponents.
fn pow2_u64(e: u32) -> (r: u64)
    requires
        e < 64,
    ensures
        r == pow2(e as nat),
{
    let mut r: u64 = 1;
    let mut i: u32 = 0;
    proof {
        lemma2_to64();
    }
    while i < e
        invariant
            i <= e,
            e < 64,
            r == pow2(i as nat),
        decreases e - i,
    {
        proof {
            if (i as nat) < 63 {
                lemma_pow2_strictly_increases(i as nat, 63);
            }
            lemma2_to64();
            lemma2_to64_rest();
            lemma_pow2_unfold((i + 1) as nat);
        }
        r = r * 2;
        i = i + 1;
    }
    r
}

/// The backoff threshold of a thread's retry metadata.
pub fn exponential_backoff_threshold(metadata: &ExecutableThreadMetadata) -> (r: u64)
    requires
        metadata.simulation_failures < 64,
        spec_backoff_threshold(metadata.due_slot, metadata.simulation_failures) <= u64::MAX,
    ensures
        r == spec_backoff_threshold(metadata.due_slot, metadata.simulation_failures),
{
    let p = pow2_u64(metadata.simulation_failures);
    proof {
        lemma_pow2_pos(metadata.simulation_failures as nat);
    }
    metadata.due_slot + (p - 1)
}

/// Whether the slot has reached the thread's backoff threshold; phrased by
/// subtraction so that no intermediate value can overflow. Total in the
/// failure count: past 64 failures the threshold exceeds every slot.
pub fn backoff_elapsed(metadata: &ExecutableThreadMetadata, slot: u64) -> (r: bool)
    ensures
        r == (slot >= spec_backoff_threshold(metadata.due_slot, metadata.simulation_failures)),
{
    let f = metadata.simulation_failures;
    proof {
        lemma_pow2_pos(f as nat);
    }
    if f <= 63 {
        if slot < metadata.due_slot {
            false
        } else {
            let p = pow2_u64(f);
            slot - metadata.due_slot >= p - 1
        }
    } else if f == 64 {
        proof {
            lemma2_to64_rest();
        }
        slot >= metadata.due_slot && slot - metadata.due_slot == u64::MAX
    } else {
        proof {
            lemma2_to64_rest();
            lemma_pow2_strictly_increases(64, f as nat);
        }
        false
    }
}

/// Whether the slot lies strictly beyond `base + window`; phrased by
/// subtraction so that no intermediate value can overflow.
pub fn window_elapsed(base: u64, slot: u64, window: u64) -> (r: bool)
    ensures
        r == (slot > base + window),
{
    slot > base && slot - base > window
}

/// Each additional failure strictly raises the backoff threshold of a thread
/// with a fixed due slot.
pub proof fn lemma_backoff_threshold_increases(due_slot: u64, simulation_failures: u32)
    requires
        simulation_failures < u32::MAX,
    ensures
        spec_backoff_threshold(due_slot, (simulation_failures + 1) as u32)
            > spec_backoff_threshold(due_slot, simulation_failures),
{
    lemma_pow2_strictly_increases(
        simulation_failures as nat,
        (simulation_failures + 1) as nat,
    );
}

} // verus!
