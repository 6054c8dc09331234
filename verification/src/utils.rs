//! Progress arithmetic shared by the fetch loop and the progress display.

use vstd::prelude::*;

verus! {

/// Clamps an integer into the percentage range `0..=100`.
pub open spec fn clamp_percent(x: int) -> int {
    if x < 0 {
        0
    } else if x > 100 {
        100
    } else {
        x
    }
}

/// The completion percentage of `current` within the block range
/// `start..end`: the whole part of `(current - start) * 100 / (end - start)`,
/// clamped into `0..=100`.
pub open spec fn normalized_progress(start: int, end: int, current: int) -> int {
    clamp_percent(((current - start) * 100) / (end - start))
}

/// Converts an absolute block height into a completion percentage.
///
/// A height before `start_block` reads as 0 and one past `end_block` as 100.
pub fn normalize_progess(start_block: u64, end_block: u64, current_block: u64) -> (percent: u64)
    requires
        start_block < end_block,
    ensures
        percent == normalized_progress(start_block as int, end_block as int, current_block as int),
        percent <= 100,
        current_block <= start_block ==> percent == 0,
        current_block >= end_block ==> percent == 100,
        start_block <= current_block <= end_block ==> percent * (end_block - start_block) <= (
        current_block - start_block) * 100 < (percent + 1) * (end_block - start_block),
{
    let total_blocks: u64 = end_block - start_block;
    if current_block <= start_block {
        proof {
            let n = (current_block - start_block) * 100;
            let d = end_block - start_block;
            assert(n / d <= 0 && (n == 0 ==> 0 * d <= n < 1 * d)) by (nonlinear_arith)
                requires
                    n <= 0,
                    d > 0,
            ;
        }
        0
    } else if current_block >= end_block {
        proof {
            let n = (current_block - start_block) * 100;
            let d = end_block - start_block;
            assert(n / d >= 100 && (n == 100 * d ==> 100 * d <= n < 101 * d)) by (nonlinear_arith)
                requires
                    n >= 100 * d,
                    d > 0,
            ;
        }
        100
    } else {
        let current_progress: u64 = current_block - start_block;
        let scaled: u128 = (current_progress as u128) * 100;
        let ratio: u128 = scaled / (total_blocks as u128);
        proof {
            let n = (current_block - start_block) * 100;
            let d = end_block - start_block;
            assert(0 <= n / d < 100 && (n / d) * d <= n < (n / d + 1) * d) by (nonlinear_arith)
                requires
                    0 <= n < 100 * d,
                    d > 0,
            ;
        }
        ratio as u64
    }
}

/// Progress never falls while the height rises.
pub proof fn lemma_progress_is_monotone(start: int, end: int, lower: int, higher: int)
    requires
        start < end,
        lower <= higher,
    ensures
        normalized_progress(start, end, lower) <= normalized_progress(start, end, higher),
{
    let d = end - start;
    let a = (lower - start) * 100;
    let b = (higher - start) * 100;
    assert(a / d <= b / d) by (nonlinear_arith)
        requires
            a <= b,
            d > 0,
    ;
}

/// Progress is 0 at the start of the range and 100 at its end, and lies
/// between them everywhere.
pub proof fn lemma_progress_at_the_ends(start: int, end: int, current: int)
    requires
        start < end,
    ensures
        normalized_progress(start, end, start) == 0,
        normalized_progress(start, end, end) == 100,
        0 <= normalized_progress(start, end, current) <= 100,
{
    let d = end - start;
    assert(0int / d == 0) by (nonlinear_arith)
        requires
            d > 0,
    ;
    assert((d * 100) / d == 100) by (nonlinear_arith)
        requires
            d > 0,
    ;
}

} // verus!
