//! Cycle accounting for the benchmarking harness.
//!
//! The harness reads the timestamp counter around a hot-buffer and a
//! cold-buffer call of the comparison baseline; the counter can wrap between
//! reads, and only its low 32 bits are meaningful across a short measurement,
//! so both deltas and their difference are folded into 32 bits. The counter
//! reads themselves come from the unverified front end; this module holds the
//! arithmetic that turns four raw readings into the reported cycle delta.

use vstd::prelude::*;

verus! {

/// One timestamp delta, folded to its low 32 bits: the wrapped difference of
/// two counter readings.
pub open spec fn lap32(start: u64, end: u64) -> u64 {
    (if end - start < 0 {
        (end - start + 0x1_0000_0000_0000_0000) as u64
    } else {
        (end - start) as u64
    }) & 0xFFFF_FFFF
}

/// The reported measurement: how many more cycles the cold call took than
/// the hot one, as a 32-bit wrapped difference of the two lap times.
pub open spec fn cycle_delta_spec(
    start_hot: u64,
    end_hot: u64,
    start_cold: u64,
    end_cold: u64,
) -> u64 {
    let hot = lap32(start_hot, end_hot);
    let cold = lap32(start_cold, end_cold);
    if cold >= hot {
        (cold - hot) as u64
    } else {
        (cold - hot + 0x1_0000_0000) as u64
    }
}

/// Folds four timestamp readings into the cold-minus-hot cycle delta, wrapped
/// to 32 bits so a counter wrap between readings cannot poison the report.
pub fn cycle_delta(start_hot: u64, end_hot: u64, start_cold: u64, end_cold: u64) -> (delta: u64)
    ensures
        delta == cycle_delta_spec(start_hot, end_hot, start_cold, end_cold),
        delta <= 0xFFFF_FFFF,
{
    let hot = end_hot.wrapping_sub(start_hot) & 0xFFFF_FFFF;
    let cold = end_cold.wrapping_sub(start_cold) & 0xFFFF_FFFF;
    proof {
        assert(forall|x: u64| #[trigger] (x & 0xFFFF_FFFF) <= 0xFFFF_FFFF) by (bit_vector);
    }
    if cold >= hot {
        cold - hot
    } else {
        (cold + 0x1_0000_0000) - hot
    }
}

} // verus!
