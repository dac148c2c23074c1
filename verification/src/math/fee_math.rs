use vstd::prelude::*;
use crate::constants::{MAX_FEE_RATE, MAX_PROTOCOL_FEE_RATE};
use crate::errors::PoolError;

verus! {

/// Denominator of a fee rate: rates are hundredths of a basis point.
pub const FEE_RATE_DENOMINATOR: u128 = 1_000_000;

/// Denominator of a protocol fee rate: rates are basis points of the fee.
pub const PROTOCOL_FEE_RATE_DENOMINATOR: u128 = 10_000;

/// The trading fee on `amount`: `floor(amount * fee_rate / 1_000_000)`.
pub open spec fn spec_fee_amount(amount: u64, fee_rate: u16) -> int {
    (amount as int * fee_rate as int) / 1_000_000
}

/// The protocol's share of a fee: `floor(fee_amount * protocol_fee_rate / 10_000)`.
pub open spec fn spec_protocol_fee(fee_amount: u64, protocol_fee_rate: u16) -> int {
    (fee_amount as int * protocol_fee_rate as int) / 10_000
}

/// Growth of the per-unit-liquidity fee accumulator caused by `lp_fee`:
/// `floor(lp_fee * 2^64 / liquidity)`, and nothing while no liquidity is active.
pub open spec fn spec_fee_growth_delta(lp_fee: u64, liquidity: u128) -> int {
    if liquidity == 0 {
        0
    } else {
        (lp_fee as int * 0x1_0000_0000_0000_0000) / (liquidity as int)
    }
}

/// A fee never exceeds one hundredth of the amount it is charged on, and
/// the product it is taken from stays within ten thousand times the
/// amount.
pub proof fn lemma_fee_amount_bounded(amount: u64, fee_rate: u16)
    requires
        fee_rate <= MAX_FEE_RATE,
    ensures
        0 <= spec_fee_amount(amount, fee_rate) <= amount / 100,
        spec_fee_amount(amount, fee_rate) <= amount,
        0 <= amount as int * fee_rate as int <= amount as int * 10_000,
{
    assert(0 <= (amount as int * fee_rate as int) <= amount as int * 10_000) by (nonlinear_arith)
        requires
            0 <= fee_rate <= 10_000,
            0 <= amount,
    ;
}

/// The protocol's share never exceeds the fee it is taken from, and the
/// product it is taken from stays within ten thousand times the fee.
pub proof fn lemma_protocol_fee_bounded(fee_amount: u64, protocol_fee_rate: u16)
    requires
        protocol_fee_rate <= MAX_PROTOCOL_FEE_RATE,
    ensures
        0 <= spec_protocol_fee(fee_amount, protocol_fee_rate) <= fee_amount,
        0 <= fee_amount as int * protocol_fee_rate as int <= fee_amount as int * 10_000,
{
    assert(0 <= (fee_amount as int * protocol_fee_rate as int) <= fee_amount as int * 10_000)
        by (nonlinear_arith)
        requires
            0 <= protocol_fee_rate <= 10_000,
            0 <= fee_amount,
    ;
}

/// A rate of zero charges nothing, and a larger amount never pays a smaller fee.
pub proof fn lemma_fee_amount_monotonic(a: u64, b: u64, fee_rate: u16)
    requires
        a <= b,
    ensures
        spec_fee_amount(a, 0) == 0,
        spec_fee_amount(a, fee_rate) <= spec_fee_amount(b, fee_rate),
{
    assert(a as int * 0 == 0);
    assert(a as int * fee_rate as int <= b as int * fee_rate as int) by (nonlinear_arith)
        requires
            a <= b,
            0 <= fee_rate,
    ;
}

/// The growth caused by a fee is never negative and fits the accumulator,
/// as does the fee scaled by two to the power 64.
pub proof fn lemma_fee_growth_delta_bounded(lp_fee: u64, liquidity: u128)
    ensures
        0 <= spec_fee_growth_delta(lp_fee, liquidity) <= u128::MAX,
        0 <= lp_fee as int * 0x1_0000_0000_0000_0000 <= u128::MAX,
{
    assert(0 <= lp_fee as int * 0x1_0000_0000_0000_0000 <= u128::MAX) by (nonlinear_arith)
        requires
            0 <= lp_fee <= 0xffff_ffff_ffff_ffff,
    ;
    if liquidity != 0 {
        let n = lp_fee as int * 0x1_0000_0000_0000_0000;
        let d = liquidity as int;
        assert(0 <= n <= u128::MAX) by (nonlinear_arith)
            requires
                n == lp_fee as int * 0x1_0000_0000_0000_0000,
                0 <= lp_fee <= 0xffff_ffff_ffff_ffff,
        ;
        assert(0 <= n / d <= n) by (nonlinear_arith)
            requires
                0 <= n,
                d >= 1,
        ;
    }
}

/// The trading fee on an amount at a rate within its maximum.
pub fn fee_at_valid_rate(amount: u64, fee_rate: u16) -> (fee: u64)
    requires
        fee_rate <= MAX_FEE_RATE,
    ensures
        fee == spec_fee_amount(amount, fee_rate),
        fee <= amount,
{
    proof {
        lemma_fee_amount_bounded(amount, fee_rate);
    }
    let product: u128 = (amount as u128) * (fee_rate as u128);
    let fee: u128 = product / FEE_RATE_DENOMINATOR;
    fee as u64
}

/// Computes the trading fee charged on an input amount.
///
/// The rate is in hundredths of a basis point and may not exceed
/// `MAX_FEE_RATE`; a larger rate is refused.
pub fn calculate_fee_amount(amount: u64, fee_rate: u16) -> (r: Result<u64, PoolError>)
    ensures
        fee_rate <= MAX_FEE_RATE ==> r == Ok::<u64, PoolError>(
            spec_fee_amount(amount, fee_rate) as u64,
        ),
        fee_rate <= MAX_FEE_RATE ==> r.unwrap() == spec_fee_amount(amount, fee_rate),
        fee_rate > MAX_FEE_RATE ==> r == Err::<u64, PoolError>(PoolError::FeeRateMaxExceeded),
{
    if fee_rate > MAX_FEE_RATE {
        return Err(PoolError::FeeRateMaxExceeded);
    }
    Ok(fee_at_valid_rate(amount, fee_rate))
}

/// Computes the part of a collected fee that the protocol keeps.
///
/// The rate is in basis points of the fee and may not exceed
/// `MAX_PROTOCOL_FEE_RATE`; a larger rate is refused.
pub fn calculate_protocol_fee(fee_amount: u64, protocol_fee_rate: u16) -> (r: Result<
    u64,
    PoolError,
>)
    ensures
        protocol_fee_rate <= MAX_PROTOCOL_FEE_RATE ==> r == Ok::<u64, PoolError>(
            spec_protocol_fee(fee_amount, protocol_fee_rate) as u64,
        ),
        protocol_fee_rate <= MAX_PROTOCOL_FEE_RATE ==> r.unwrap() == spec_protocol_fee(
            fee_amount,
            protocol_fee_rate,
        ),
        protocol_fee_rate > MAX_PROTOCOL_FEE_RATE ==> r == Err::<u64, PoolError>(
            PoolError::ProtocolFeeRateMaxExceeded,
        ),
{
    if protocol_fee_rate > MAX_PROTOCOL_FEE_RATE {
        return Err(PoolError::ProtocolFeeRateMaxExceeded);
    }
    proof {
        lemma_protocol_fee_bounded(fee_amount, protocol_fee_rate);
    }
    let product: u128 = (fee_amount as u128) * (protocol_fee_rate as u128);
    let fee: u128 = product / PROTOCOL_FEE_RATE_DENOMINATOR;
    Ok(fee as u64)
}

/// Computes by how much the fee-growth accumulator rises when `lp_fee` is
/// shared among `liquidity` units. With no active liquidity nothing can be
/// shared, and the growth is zero.
pub fn fee_growth_delta(lp_fee: u64, liquidity: u128) -> (r: u128)
    ensures
        r == spec_fee_growth_delta(lp_fee, liquidity),
{
    if liquidity == 0 {
        return 0;
    }
    proof {
        lemma_fee_growth_delta_bounded(lp_fee, liquidity);
    }
    let scaled: u128 = (lp_fee as u128) * 0x1_0000_0000_0000_0000u128;
    scaled / liquidity
}

} // verus!
