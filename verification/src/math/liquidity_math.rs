use vstd::prelude::*;
use crate::errors::PoolError;

verus! {

/// Two to the power 64: the value one in Q64.64.
pub const Q64: u128 = 0x1_0000_0000_0000_0000;

/// Liquidity after a signed change, as a mathematical integer.
pub open spec fn spec_add_delta(x: u128, y: i128) -> int {
    x as int + y as int
}

/// Liquidity that `amount_a` of asset A supports at `sqrt_price`:
/// `floor(amount_a * sqrt_price / 2^64)`.
pub open spec fn spec_liquidity_from_a(amount_a: u64, sqrt_price: u128) -> int {
    (amount_a as int * sqrt_price as int) / 0x1_0000_0000_0000_0000
}

/// Liquidity that `amount_b` of asset B supports over a price span:
/// `floor(amount_b * 2^64 / span)`.
pub open spec fn spec_liquidity_from_b(amount_b: u64, span: int) -> int
    recommends
        span > 0,
{
    (amount_b as int * 0x1_0000_0000_0000_0000) / span
}

/// The smaller of two integers.
pub open spec fn spec_min(a: int, b: int) -> int {
    if a <= b {
        a
    } else {
        b
    }
}

/// The liquidity obtainable from a deposit, by where the price stands
/// relative to the range; `None` where the computation does not fit.
pub open spec fn spec_liquidity_from_amounts(
    sqrt_price: u128,
    sqrt_price_lower: u128,
    sqrt_price_upper: u128,
    amount_a: u64,
    amount_b: u64,
) -> Option<int> {
    if sqrt_price <= sqrt_price_lower {
        let l = spec_liquidity_from_a(amount_a, sqrt_price_lower);
        if amount_a as int * sqrt_price_lower as int <= u128::MAX {
            Some(l)
        } else {
            None
        }
    } else if sqrt_price < sqrt_price_upper {
        if amount_a as int * sqrt_price as int <= u128::MAX {
            Some(
                spec_min(
                    spec_liquidity_from_a(amount_a, sqrt_price),
                    spec_liquidity_from_b(amount_b, sqrt_price_upper - sqrt_price),
                ),
            )
        } else {
            None
        }
    } else {
        if sqrt_price_upper > sqrt_price_lower {
            Some(spec_liquidity_from_b(amount_b, sqrt_price_upper - sqrt_price_lower))
        } else {
            None
        }
    }
}

/// Applies a signed change to an amount of liquidity.
///
/// Succeeds exactly when the result is neither negative nor above what
/// 128 bits hold, and then returns `x + y`.
pub fn add_delta(x: u128, y: i128) -> (r: Result<u128, PoolError>)
    ensures
        0 <= spec_add_delta(x, y) <= u128::MAX ==> r == Ok::<u128, PoolError>(
            spec_add_delta(x, y) as u128,
        ),
        0 <= spec_add_delta(x, y) <= u128::MAX ==> r.unwrap() == x + y,
        !(0 <= spec_add_delta(x, y) <= u128::MAX) ==> r == Err::<u128, PoolError>(
            PoolError::LiquidityOverflow,
        ),
{
    if y < 0 {
        let y_abs: u128 = ((-(y + 1)) as u128) + 1;
        if y_abs > x {
            return Err(PoolError::LiquidityOverflow);
        }
        Ok(x - y_abs)
    } else {
        match x.checked_add(y as u128) {
            Some(v) => Ok(v),
            None => Err(PoolError::LiquidityOverflow),
        }
    }
}

/// Removing what fits leaves the difference, a change of zero leaves the
/// liquidity as it is, and removing more than there is fails.
pub proof fn lemma_add_delta_laws(l: u128, d: i128)
    ensures
        spec_add_delta(l, 0) == l,
        (d <= 0 && -d <= l) ==> 0 <= spec_add_delta(l, d) == l - (-d) <= u128::MAX,
        (d < 0 && -d > l) ==> spec_add_delta(l, d) < 0,
{
}

/// A change followed by the opposite change gives back the liquidity it
/// started from.
pub proof fn lemma_add_delta_inverse(l: u128, d: i128)
    requires
        d > i128::MIN,
        0 <= spec_add_delta(l, d) <= u128::MAX,
    ensures
        spec_add_delta(spec_add_delta(l, d) as u128, (-d) as i128) == l,
{
}

/// Computes the liquidity that a deposit of the two amounts supports.
///
/// Below the range only asset A counts, above it only asset B, and inside
/// it the scarcer of the two decides. A product that does not fit in 128
/// bits, or an empty or inverted range where asset B decides, is refused.
pub fn get_liquidity_from_amounts(
    sqrt_price: u128,
    sqrt_price_lower: u128,
    sqrt_price_upper: u128,
    amount_a: u64,
    amount_b: u64,
) -> (r: Result<u128, PoolError>)
    ensures
        match spec_liquidity_from_amounts(
            sqrt_price,
            sqrt_price_lower,
            sqrt_price_upper,
            amount_a,
            amount_b,
        ) {
            Some(l) => r == Ok::<u128, PoolError>(l as u128) && 0 <= l <= u128::MAX,
            None => r == Err::<u128, PoolError>(PoolError::LiquidityOverflow),
        },
{
    if sqrt_price <= sqrt_price_lower {
        liquidity_from_a(amount_a, sqrt_price_lower)
    } else if sqrt_price < sqrt_price_upper {
        let liquidity_a: u128 = match liquidity_from_a(amount_a, sqrt_price) {
            Ok(v) => v,
            Err(e) => { return Err(e); },
        };
        let liquidity_b: u128 = liquidity_from_b(amount_b, sqrt_price_upper - sqrt_price);
        if liquidity_a <= liquidity_b {
            Ok(liquidity_a)
        } else {
            Ok(liquidity_b)
        }
    } else {
        if sqrt_price_upper <= sqrt_price_lower {
            return Err(PoolError::LiquidityOverflow);
        }
        Ok(liquidity_from_b(amount_b, sqrt_price_upper - sqrt_price_lower))
    }
}

/// Liquidity from asset A alone; refused where the product overflows.
fn liquidity_from_a(amount_a: u64, sqrt_price: u128) -> (r: Result<u128, PoolError>)
    ensures
        amount_a as int * sqrt_price as int <= u128::MAX ==> r == Ok::<u128, PoolError>(
            spec_liquidity_from_a(amount_a, sqrt_price) as u128,
        ) && 0 <= spec_liquidity_from_a(amount_a, sqrt_price) <= u128::MAX,
        amount_a as int * sqrt_price as int > u128::MAX ==> r == Err::<u128, PoolError>(
            PoolError::LiquidityOverflow,
        ),
{
    match (amount_a as u128).checked_mul(sqrt_price) {
        Some(product) => Ok(product / Q64),
        None => Err(PoolError::LiquidityOverflow),
    }
}

/// Liquidity from asset B alone over a positive price span.
fn liquidity_from_b(amount_b: u64, span: u128) -> (r: u128)
    requires
        span > 0,
    ensures
        r == spec_liquidity_from_b(amount_b, span as int),
{
    proof {
        let n = amount_b as int * 0x1_0000_0000_0000_0000;
        assert(0 <= n <= u128::MAX) by (nonlinear_arith)
            requires
                n == amount_b as int * 0x1_0000_0000_0000_0000,
                0 <= amount_b <= 0xffff_ffff_ffff_ffff,
        ;
        assert(0 <= n / (span as int) <= n) by (nonlinear_arith)
            requires
                0 <= n,
                span >= 1,
        ;
    }
    let scaled: u128 = (amount_b as u128) * Q64;
    scaled / span
}

/// With the price on the lower bound the result is the liquidity of asset A
/// at that bound, whatever amount of asset B is offered.
pub proof fn lemma_liquidity_at_lower_uses_only_a(
    sqrt_price_lower: u128,
    sqrt_price_upper: u128,
    amount_a: u64,
    amount_b1: u64,
    amount_b2: u64,
)
    ensures
        spec_liquidity_from_amounts(
            sqrt_price_lower,
            sqrt_price_lower,
            sqrt_price_upper,
            amount_a,
            amount_b1,
        ) == spec_liquidity_from_amounts(
            sqrt_price_lower,
            sqrt_price_lower,
            sqrt_price_upper,
            amount_a,
            amount_b2,
        ),
        amount_a as int * sqrt_price_lower as int <= u128::MAX ==> spec_liquidity_from_amounts(
            sqrt_price_lower,
            sqrt_price_lower,
            sqrt_price_upper,
            amount_a,
            amount_b1,
        ) == Some(spec_liquidity_from_a(amount_a, sqrt_price_lower)),
{
}

/// With the price on the upper bound of a proper range the result is the
/// liquidity of asset B over the whole range, whatever amount of asset A
/// is offered.
pub proof fn lemma_liquidity_at_upper_uses_only_b(
    sqrt_price_lower: u128,
    sqrt_price_upper: u128,
    amount_a1: u64,
    amount_a2: u64,
    amount_b: u64,
)
    requires
        sqrt_price_lower < sqrt_price_upper,
    ensures
        spec_liquidity_from_amounts(
            sqrt_price_upper,
            sqrt_price_lower,
            sqrt_price_upper,
            amount_a1,
            amount_b,
        ) == spec_liquidity_from_amounts(
            sqrt_price_upper,
            sqrt_price_lower,
            sqrt_price_upper,
            amount_a2,
            amount_b,
        ),
        spec_liquidity_from_amounts(
            sqrt_price_upper,
            sqrt_price_lower,
            sqrt_price_upper,
            amount_a1,
            amount_b,
        ) == Some(spec_liquidity_from_b(amount_b, sqrt_price_upper - sqrt_price_lower)),
{
}

/// Inside the range the result is bounded by each asset's own liquidity,
/// and the share of asset A is the expression that decides on the lower
/// bound, taken at the current price.
pub proof fn lemma_liquidity_inside_is_scarcer_asset(
    sqrt_price: u128,
    sqrt_price_lower: u128,
    sqrt_price_upper: u128,
    amount_a: u64,
    amount_b: u64,
)
    requires
        sqrt_price_lower < sqrt_price < sqrt_price_upper,
        amount_a as int * sqrt_price as int <= u128::MAX,
    ensures
        spec_liquidity_from_amounts(
            sqrt_price,
            sqrt_price_lower,
            sqrt_price_upper,
            amount_a,
            amount_b,
        ) is Some,
        spec_liquidity_from_amounts(
            sqrt_price,
            sqrt_price_lower,
            sqrt_price_upper,
            amount_a,
            amount_b,
        ).unwrap() <= spec_liquidity_from_a(amount_a, sqrt_price),
        spec_liquidity_from_amounts(
            sqrt_price,
            sqrt_price_lower,
            sqrt_price_upper,
            amount_a,
            amount_b,
        ).unwrap() <= spec_liquidity_from_b(amount_b, sqrt_price_upper - sqrt_price),
{
}

} // verus!
