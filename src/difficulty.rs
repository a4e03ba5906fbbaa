//! Network difficulty and dynamic target deadlines.
use vstd::prelude::*;

verus! {

/// 2^42: the numerator of the network difficulty formula.
pub const DIFFICULTY_NUMERATOR: u64 = 4398046511104;

/// Block time in seconds used for the network difficulty of every chain.
pub const DEFAULT_BLOCK_TIME_SECS: u16 = 240;

/// Block time in seconds of BHD, used for display only.
pub const BHD_BLOCK_TIME_SECS: u16 = 300;

/// Seconds that the dynamic target deadline scales the network difficulty by.
pub const DYNAMIC_DEADLINE_FACTOR: u64 = 720;

/// GiB in one TiB.
pub const GIB_PER_TIB: u64 = 1024;

/// `⌊⌊2^42 / block_time⌋ / base_target⌋`.
pub open spec fn net_diff(base_target: int, block_time_secs: int) -> int
    recommends
        base_target > 0,
        block_time_secs > 0,
{
    (DIFFICULTY_NUMERATOR as int / block_time_secs) / base_target
}

/// `⌊720 × net_diff / capacity_tib⌋`, with the capacity given in GiB:
/// `720 × net_diff / (gib / 1024) = 720 × 1024 × net_diff / gib`.
pub open spec fn dynamic_deadline(net_difficulty: int, capacity_gib: int) -> int
    recommends
        capacity_gib > 0,
{
    (DYNAMIC_DEADLINE_FACTOR * GIB_PER_TIB * net_difficulty) / capacity_gib
}

/// Network difficulty of a block with the given base target.
pub fn get_network_difficulty_for_block(base_target: u32, block_time_seconds: u16) -> (r: u64)
    requires
        base_target > 0,
        block_time_seconds > 0,
    ensures
        r == net_diff(base_target as int, block_time_seconds as int),
        r <= DIFFICULTY_NUMERATOR,
{
    (DIFFICULTY_NUMERATOR / block_time_seconds as u64) / base_target as u64
}

/// Dynamic target deadline for a block: `None` when the chain does not use dynamic
/// deadlines or no capacity is known, else `⌊720 × net_diff / capacity_tib⌋`.
pub fn get_dynamic_deadline_for_block(
    use_dynamic_deadlines: bool,
    base_target: u32,
    capacity_gib: u64,
) -> (r: Option<u64>)
    requires
        base_target > 0,
    ensures
        r == (if use_dynamic_deadlines && capacity_gib > 0 {
            Some(
                dynamic_deadline(
                    net_diff(base_target as int, DEFAULT_BLOCK_TIME_SECS as int),
                    capacity_gib as int,
                ) as u64,
            )
        } else {
            None::<u64>
        }),
{
    if use_dynamic_deadlines && capacity_gib > 0 {
        let nd = get_network_difficulty_for_block(base_target, DEFAULT_BLOCK_TIME_SECS);
        assert(nd <= 18325193796) by {
            let q: int = DIFFICULTY_NUMERATOR as int / 240;
            let b: int = base_target as int;
            assert(q == 18325193796);
            assert(q / b <= q) by (nonlinear_arith)
                requires
                    b >= 1,
                    q >= 0,
            ;
        }
        assert(737280 * nd <= 737280 * 18325193796u64) by (nonlinear_arith)
            requires
                nd <= 18325193796u64,
        ;
        let scaled: u64 = 737280 * nd;
        Some(scaled / capacity_gib)
    } else {
        None
    }
}

} // verus!
