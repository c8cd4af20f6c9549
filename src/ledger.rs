use vstd::prelude::*;

verus! {

/// Fee taken from each gross wager, in basis points.
pub const FEE_BASIS_POINTS: u128 = 500;

/// Share of each gross wager set aside for the final prize, in basis points.
pub const FINAL_PRIZE_BASIS_POINTS: u128 = 2000;

/// Basis points in a whole.
pub const BASIS_POINTS_DIV: u128 = 10_000;

/// Most that one payout call may pay out in total.
pub const MAX_PAYOUT_CHUNK: u128 = 10_000_000_000_000_000;

/// Product of `a` and `b`, held at `u128::MAX` when it does not fit.
pub open spec fn sat_mul_spec(a: u128, b: u128) -> u128 {
    if a * b > u128::MAX {
        u128::MAX
    } else {
        (a * b) as u128
    }
}

/// Multiplication that saturates at `u128::MAX`.
pub fn sat_mul(a: u128, b: u128) -> (r: u128)
    ensures
        r == sat_mul_spec(a, b),
{
    match a.checked_mul(b) {
        Some(v) => v,
        None => u128::MAX,
    }
}

/// The cut of `bps` basis points taken from `gross`, rounded down.
pub open spec fn bps_cut(gross: u128, bps: u128) -> u128 {
    (sat_mul_spec(gross, bps) / BASIS_POINTS_DIV) as u128
}

pub open spec fn fee_spec(gross: u128) -> u128 {
    bps_cut(gross, FEE_BASIS_POINTS)
}

pub open spec fn prize_cut_spec(gross: u128) -> u128 {
    bps_cut(gross, FINAL_PRIZE_BASIS_POINTS)
}

/// What is left of a gross wager once the fee and the prize cut are taken.
pub open spec fn net_spec(gross: u128) -> u128 {
    gross.saturating_sub(fee_spec(gross)).saturating_sub(prize_cut_spec(gross))
}

/// The fee on a gross wager.
pub fn fee_of(gross: u128) -> (r: u128)
    ensures
        r == fee_spec(gross),
{
    sat_mul(gross, FEE_BASIS_POINTS) / BASIS_POINTS_DIV
}

/// The final-prize cut of a gross wager.
pub fn prize_cut_of(gross: u128) -> (r: u128)
    ensures
        r == prize_cut_spec(gross),
{
    sat_mul(gross, FINAL_PRIZE_BASIS_POINTS) / BASIS_POINTS_DIV
}

/// The stake credited to the pool for a gross wager.
pub fn net_of(gross: u128) -> (r: u128)
    ensures
        r == net_spec(gross),
{
    gross.saturating_sub(fee_of(gross)).saturating_sub(prize_cut_of(gross))
}

/// A winner's share of the whole pool: its stake times the total pool,
/// divided by the winning pool, rounded down.
pub open spec fn share_spec(amount: u128, total_pool: u128, winning_pool: u128) -> u128
    recommends
        winning_pool > 0,
{
    (sat_mul_spec(amount, total_pool) / winning_pool) as u128
}

pub fn share_of(amount: u128, total_pool: u128, winning_pool: u128) -> (r: u128)
    requires
        winning_pool > 0,
    ensures
        r == share_spec(amount, total_pool, winning_pool),
{
    sat_mul(amount, total_pool) / winning_pool
}

/// Where the product does not saturate, the fee, the prize cut and the net
/// stake add up to the gross wager, each cut being exactly its basis points.
pub proof fn lemma_wager_split(gross: u128)
    requires
        gross <= u128::MAX / FINAL_PRIZE_BASIS_POINTS,
    ensures
        fee_spec(gross) == gross * 500 / 10_000,
        prize_cut_spec(gross) == gross * 2000 / 10_000,
        fee_spec(gross) + prize_cut_spec(gross) + net_spec(gross) == gross,
{
    assert(gross * 500 <= u128::MAX) by (nonlinear_arith)
        requires
            gross <= u128::MAX / 2000,
    ;
    assert(gross * 2000 <= u128::MAX) by (nonlinear_arith)
        requires
            gross <= u128::MAX / 2000,
    ;
    assert(gross * 500 / 10_000 + gross * 2000 / 10_000 <= gross) by (nonlinear_arith);
}

} // verus!
