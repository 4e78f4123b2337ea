//! Estimates of how long the chain takes to decide a block.

use vstd::prelude::*;

verus! {

/// Seconds in a year of 365 days.
pub const ONE_YEAR_SECS: u64 = 31_536_000;

/// Why an estimate cannot be made.
#[derive(Clone, Copy, Debug, PartialEq, Eq, Structural)]
pub enum ReadError {
    /// A parameter that is divided by is zero.
    DivisionByZero,
}

/// The longer of the two block times that the epoch parameters imply: the
/// minimum epoch duration spread over the minimum number of blocks of an
/// epoch, and the length of an epoch (a year over the epochs per year)
/// spread likewise.
pub open spec fn block_time_from_parameters(
    min_duration: u64,
    min_num_of_blocks: u64,
    epochs_per_year: u64,
) -> u64 {
    let a = min_duration / min_num_of_blocks;
    let b = (ONE_YEAR_SECS / epochs_per_year) / min_num_of_blocks;
    if a >= b {
        a
    } else {
        b
    }
}

/// An estimate, in seconds, of the longest time to decide a block, from the
/// epoch parameters.
pub fn estimate_max_block_time_from_parameters(
    min_duration: u64,
    min_num_of_blocks: u64,
    epochs_per_year: u64,
) -> (r: Result<u64, ReadError>)
    ensures
        min_num_of_blocks == 0 || epochs_per_year == 0 ==> r == Err::<u64, ReadError>(
            ReadError::DivisionByZero,
        ),
        min_num_of_blocks != 0 && epochs_per_year != 0 ==> r == Ok::<u64, ReadError>(
            block_time_from_parameters(min_duration, min_num_of_blocks, epochs_per_year),
        ),
{
    if min_num_of_blocks == 0 || epochs_per_year == 0 {
        return Err(ReadError::DivisionByZero);
    }
    let via_min_duration = min_duration / min_num_of_blocks;
    let epoch_duration = ONE_YEAR_SECS / epochs_per_year;
    let via_epochs_per_year = epoch_duration / min_num_of_blocks;
    if via_min_duration >= via_epochs_per_year {
        Ok(via_min_duration)
    } else {
        Ok(via_epochs_per_year)
    }
}

/// The time from the block at `i` to the next one; zero where the next one
/// is stamped earlier.
pub open spec fn gap(ts: Seq<u64>, i: int) -> int {
    if ts[i + 1] >= ts[i] {
        ts[i + 1] - ts[i]
    } else {
        0
    }
}

/// `g` is the longest gap between two consecutive timestamps of `ts`.
pub open spec fn is_max_gap(ts: Seq<u64>, g: u64) -> bool {
    &&& exists|i: int| 0 <= i < ts.len() - 1 && #[trigger] gap(ts, i) == g
    &&& forall|i: int| 0 <= i < ts.len() - 1 ==> #[trigger] gap(ts, i) <= g
}

/// An estimate, in seconds, of the longest time to decide a block, from the
/// times of consecutive blocks, in seconds: the longest gap, or none where
/// there are fewer than two blocks.
pub fn estimate_max_block_time_from_blocks(ts: &Vec<u64>) -> (r: Option<u64>)
    ensures
        ts@.len() < 2 ==> r is None,
        ts@.len() >= 2 ==> (r matches Some(g) && is_max_gap(ts@, g)),
{
    if ts.len() < 2 {
        return None;
    }
    let mut best: u64 = ts[1].saturating_sub(ts[0]);
    assert(gap(ts@, 0) == best);
    let mut i: usize = 1;
    while i < ts.len() - 1
        invariant
            1 <= i < ts@.len(),
            exists|k: int| 0 <= k < i && #[trigger] gap(ts@, k) == best,
            forall|k: int| 0 <= k < i ==> #[trigger] gap(ts@, k) <= best,
        decreases ts@.len() - i,
    {
        let g = ts[i + 1].saturating_sub(ts[i]);
        assert(gap(ts@, i as int) == g);
        if g > best {
            best = g;
        }
        i = i + 1;
    }
    Some(best)
}

/// An estimate, in seconds, of the longest time to decide a block: the
/// larger of the estimates from the blocks and from the parameters.
pub fn estimate_max_block_time_from_blocks_and_params(
    ts: &Vec<u64>,
    min_duration: u64,
    min_num_of_blocks: u64,
    epochs_per_year: u64,
) -> (r: Result<u64, ReadError>)
    ensures
        min_num_of_blocks == 0 || epochs_per_year == 0 ==> r == Err::<u64, ReadError>(
            ReadError::DivisionByZero,
        ),
        min_num_of_blocks != 0 && epochs_per_year != 0 && ts@.len() < 2 ==> r == Ok::<u64, ReadError>(
            block_time_from_parameters(min_duration, min_num_of_blocks, epochs_per_year),
        ),
        forall|g: u64|
            min_num_of_blocks != 0 && epochs_per_year != 0 && ts@.len() >= 2 && #[trigger] is_max_gap(
                ts@,
                g,
            ) ==> r == Ok::<u64, ReadError>(
                if g >= block_time_from_parameters(min_duration, min_num_of_blocks, epochs_per_year) {
                    g
                } else {
                    block_time_from_parameters(min_duration, min_num_of_blocks, epochs_per_year)
                },
            ),
{
    let from_blocks = estimate_max_block_time_from_blocks(ts);
    let from_params = match estimate_max_block_time_from_parameters(
        min_duration,
        min_num_of_blocks,
        epochs_per_year,
    ) {
        Ok(v) => v,
        Err(e) => {
            return Err(e);
        },
    };
    match from_blocks {
        None => Ok(from_params),
        Some(g) => {
            proof {
                assert forall|h: u64| #[trigger] is_max_gap(ts@, h) implies h == g by {
                    let i = choose|i: int| 0 <= i < ts@.len() - 1 && #[trigger] gap(ts@, i) == h;
                    let k = choose|k: int| 0 <= k < ts@.len() - 1 && #[trigger] gap(ts@, k) == g;
                    assert(gap(ts@, i) <= g);
                    assert(gap(ts@, k) <= h);
                }
            }
            if g >= from_params {
                Ok(g)
            } else {
                Ok(from_params)
            }
        },
    }
}

} // verus!
