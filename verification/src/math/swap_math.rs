use vstd::prelude::*;
use crate::constants::MAX_FEE_RATE;
use crate::errors::PoolError;
use crate::math::fee_math::{
    fee_at_valid_rate, lemma_fee_amount_bounded, lemma_fee_amount_monotonic, spec_fee_amount,
};
use crate::math::sqrt_price_math::{
    amount_delta_a_wide, amount_delta_b_wide, div_ceil, get_amount_delta_a, get_amount_delta_b,
    lemma_delta_a_brackets_exact, lemma_delta_a_within_outer, lemma_div_floor_ceil,
    lemma_raw_delta_a_fits, lemma_raw_delta_b_fits, spec_amount_delta_a, spec_amount_delta_b, spec_div_ceil,
    spec_div_floor, spec_raw_delta_a, spec_raw_delta_b, spec_wide_delta_a, spec_wide_delta_b,
};

verus! {

/// What one step of a swap does: where the price goes, what the trader
/// pays in, what the pool pays out, and the fee charged on top.
#[derive(Clone, Copy, Debug, PartialEq, Eq)]
pub struct SwapStep {
    pub next_price: u128,
    pub amount_in: u64,
    pub amount_out: u64,
    pub fee_amount: u64,
}

/// The price after `amount` of asset A comes in: the quotient
/// `liquidity * 2^64 / price` grows by the amount, and the new price is
/// rounded up, so that it falls no further than was paid for.
pub open spec fn spec_price_after_input_a(price: u128, liquidity: u128, amount: u64) -> int
    recommends
        price > 0,
{
    let n = liquidity as int * 0x1_0000_0000_0000_0000;
    if amount == 0 {
        price as int
    } else {
        spec_div_ceil(n, n / (price as int) + amount)
    }
}

/// The price after `amount` of asset B comes in: it rises by
/// `amount * 2^64 / liquidity`, rounded down.
pub open spec fn spec_price_after_input_b(price: u128, liquidity: u128, amount: u64) -> int
    recommends
        liquidity > 0,
{
    price + spec_div_floor(amount as int * 0x1_0000_0000_0000_0000, liquidity as int)
}

/// The price after `amount` of asset B goes out: it falls by
/// `amount * 2^64 / liquidity`, rounded up.
pub open spec fn spec_price_after_output_b(price: u128, liquidity: u128, amount: u64) -> int
    recommends
        liquidity > 0,
{
    price - spec_div_ceil(amount as int * 0x1_0000_0000_0000_0000, liquidity as int)
}

/// The price after `amount` of asset A goes out: the quotient
/// `liquidity * 2^64 / price` shrinks by the amount, and the new price is
/// rounded up.
pub open spec fn spec_price_after_output_a(price: u128, liquidity: u128, amount: u64) -> int
    recommends
        price > 0,
{
    let n = liquidity as int * 0x1_0000_0000_0000_0000;
    spec_div_ceil(n, n / (price as int) - amount)
}

/// What the pool pays out when the price moves from `price` to `next`.
pub open spec fn spec_step_output(price: u128, next: u128, liquidity: u128, a_to_b: bool) -> Result<
    u64,
    PoolError,
> {
    if a_to_b {
        spec_amount_delta_b(next, price, liquidity, false)
    } else {
        spec_amount_delta_a(price, next, liquidity, false)
    }
}

/// What the trader owes when the price moves from `price` to `next`.
pub open spec fn spec_step_input(price: u128, next: u128, liquidity: u128, a_to_b: bool) -> Result<
    u64,
    PoolError,
> {
    if a_to_b {
        spec_amount_delta_a(next, price, liquidity, true)
    } else {
        spec_amount_delta_b(price, next, liquidity, true)
    }
}

/// A step that spends up to `remaining` of the input asset.
///
/// The fee on the whole of `remaining` is set aside first. Where what is
/// left reaches the target, the step takes what the move costs and the
/// fee on that; where it does not, the step takes all of it, with the fee
/// that was set aside, and the price stops on the way.
pub open spec fn spec_step_exact_in(
    price: u128,
    target: u128,
    liquidity: u128,
    remaining: u64,
    fee_rate: u16,
    a_to_b: bool,
) -> Result<SwapStep, PoolError> {
    let fee_total = spec_fee_amount(remaining, fee_rate) as u64;
    let net = (remaining - fee_total) as u64;
    let max_in = if a_to_b {
        spec_wide_delta_a(target, price, liquidity, true)
    } else {
        spec_wide_delta_b(price, target, liquidity, true)
    };
    match max_in {
        Err(e) => Err(e),
        Ok(m) => {
            let reached = m <= net;
            let next = if reached {
                target
            } else if a_to_b {
                spec_price_after_input_a(price, liquidity, net) as u128
            } else {
                spec_price_after_input_b(price, liquidity, net) as u128
            };
            match spec_step_output(price, next, liquidity, a_to_b) {
                Err(e) => Err(e),
                Ok(out) => Ok(
                    SwapStep {
                        next_price: next,
                        amount_in: if reached {
                            m as u64
                        } else {
                            net
                        },
                        amount_out: out,
                        fee_amount: if reached {
                            spec_fee_amount(m as u64, fee_rate) as u64
                        } else {
                            fee_total
                        },
                    },
                ),
            }
        },
    }
}

/// A step that yields up to `remaining` of the output asset.
///
/// Where the move to the target yields no more than `remaining`, the step
/// goes there; where it would yield more, the price stops where exactly
/// `remaining` has gone out. The trader owes what the move costs, and the
/// fee on that.
pub open spec fn spec_step_exact_out(
    price: u128,
    target: u128,
    liquidity: u128,
    remaining: u64,
    fee_rate: u16,
    a_to_b: bool,
) -> Result<SwapStep, PoolError> {
    let max_out = if a_to_b {
        spec_wide_delta_b(target, price, liquidity, false)
    } else {
        spec_wide_delta_a(price, target, liquidity, false)
    };
    match max_out {
        Err(e) => Err(e),
        Ok(m) => {
            let reached = m <= remaining;
            let next = if reached {
                target
            } else if a_to_b {
                spec_price_after_output_b(price, liquidity, remaining) as u128
            } else {
                spec_price_after_output_a(price, liquidity, remaining) as u128
            };
            match spec_step_input(price, next, liquidity, a_to_b) {
                Err(e) => Err(e),
                Ok(amount_in) => Ok(
                    SwapStep {
                        next_price: next,
                        amount_in,
                        amount_out: if reached {
                            m as u64
                        } else {
                            remaining
                        },
                        fee_amount: spec_fee_amount(amount_in, fee_rate) as u64,
                    },
                ),
            }
        },
    }
}

/// One step of a swap from `price` toward `target` at constant liquidity.
///
/// A fee rate above its maximum, a price of zero and a target on the
/// wrong side of the price are refused. With no liquidity, or with the
/// price on the target already, the step moves to the target and trades
/// nothing.
pub open spec fn spec_swap_step(
    price: u128,
    target: u128,
    liquidity: u128,
    remaining: u64,
    fee_rate: u16,
    exact_in: bool,
    a_to_b: bool,
) -> Result<SwapStep, PoolError> {
    if fee_rate > MAX_FEE_RATE {
        Err(PoolError::FeeRateMaxExceeded)
    } else if price == 0 || target == 0 {
        Err(PoolError::SqrtPriceOutOfBounds)
    } else if (a_to_b && target > price) || (!a_to_b && target < price) {
        Err(PoolError::InvalidSqrtPriceLimitDirection)
    } else if liquidity == 0 || price == target {
        Ok(SwapStep { next_price: target, amount_in: 0, amount_out: 0, fee_amount: 0 })
    } else if exact_in {
        spec_step_exact_in(price, target, liquidity, remaining, fee_rate, a_to_b)
    } else {
        spec_step_exact_out(price, target, liquidity, remaining, fee_rate, a_to_b)
    }
}

/// What a step must keep to: the price moves toward the target and never
/// past it, the step takes no more than what remains, and it stops short
/// of the target only when what remains is used up.
pub open spec fn spec_step_is_sound(
    step: SwapStep,
    price: u128,
    target: u128,
    remaining: u64,
    exact_in: bool,
    a_to_b: bool,
) -> bool {
    &&& a_to_b ==> target <= step.next_price <= price
    &&& !a_to_b ==> price <= step.next_price <= target
    &&& exact_in ==> step.amount_in + step.fee_amount <= remaining
    &&& !exact_in ==> step.amount_out <= remaining
    &&& step.next_price != target ==> (if exact_in {
        step.amount_in + step.fee_amount == remaining
    } else {
        step.amount_out == remaining
    })
}

/// The ceiling of a quotient, less one, lies strictly below the quotient.
proof fn lemma_ceil_minus_one(n: int, d: int)
    requires
        0 <= n,
        0 < d,
    ensures
        (spec_div_ceil(n, d) - 1) * d < n || n == 0,
        n == 0 ==> spec_div_ceil(n, d) == 0,
{
    lemma_div_floor_ceil(n, d);
    vstd::arithmetic::div_mod::lemma_fundamental_div_mod(n, d);
    vstd::arithmetic::div_mod::lemma_mod_bound(n, d);
    let q = n / d;
    if n % d == 0 {
        if n > 0 {
            assert((q - 1) * d < n) by (nonlinear_arith)
                requires
                    n == d * q,
                    d > 0,
            ;
        } else {
            assert(q == 0) by (nonlinear_arith)
                requires
                    0 == d * q,
                    d > 0,
            ;
        }
    } else {
        assert(q * d < n) by (nonlinear_arith)
            requires
                n == d * q + n % d,
                n % d > 0,
        ;
    }
}

/// Input of asset A that does not reach the target leaves the price
/// between the target and where it was.
pub proof fn lemma_input_a_stays_in_reach(price: u128, target: u128, liquidity: u128, net: u64)
    requires
        0 < target < price,
        liquidity as int * 0x1_0000_0000_0000_0000 <= u128::MAX,
        net < spec_raw_delta_a(target, price, liquidity, true),
    ensures
        target <= spec_price_after_input_a(price, liquidity, net) <= price,
        net > 0 ==> 0 < (liquidity as int * 0x1_0000_0000_0000_0000) / (price as int) + net
            <= u128::MAX,
{
    let n: int = liquidity as int * 0x1_0000_0000_0000_0000;
    assert(0 <= n) by (nonlinear_arith)
        requires
            n == liquidity as int * 0x1_0000_0000_0000_0000,
            0 <= liquidity,
    ;
    let p = price as int;
    let t = target as int;
    lemma_delta_a_within_outer(target, price, liquidity);
    lemma_div_floor_ceil(n, p);
    lemma_div_floor_ceil(n, t);
    lemma_ceil_minus_one(n, t);
    let q = n / p;
    let c = spec_div_ceil(n, t);
    if net > 0 {
        let x = q + net;
        assert(x <= c - 1);
        assert(c <= n + 1) by (nonlinear_arith)
            requires
                (c - 1) * t < n || n == 0,
                n == 0 ==> c == 0,
                t >= 1,
                0 <= n,
        ;
        assert(x * t < n) by (nonlinear_arith)
            requires
                x <= c - 1,
                (c - 1) * t < n || n == 0,
                n == 0 ==> c == 0,
                0 < x,
                t > 0,
        ;
        lemma_div_floor_ceil(n, x);
        let f = n / x;
        let up = spec_div_ceil(n, x);
        assert(up >= t) by (nonlinear_arith)
            requires
                n <= up * x,
                x * t < n,
                x > 0,
        ;
        assert((q + 1) * p <= x * p) by (nonlinear_arith)
            requires
                x >= q + 1,
                p > 0,
        ;
        assert(f < p) by (nonlinear_arith)
            requires
                f * x < x * p,
                x > 0,
        ;
    }
}

/// Input of asset B that does not reach the target leaves the price
/// between where it was and the target.
pub proof fn lemma_input_b_stays_in_reach(price: u128, target: u128, liquidity: u128, net: u64)
    requires
        price < target,
        liquidity > 0,
        net < spec_raw_delta_b(price, target, liquidity, true),
    ensures
        price <= spec_price_after_input_b(price, liquidity, net) <= target,
        0 <= net as int * 0x1_0000_0000_0000_0000 <= u128::MAX,
{
    let d: int = target - price;
    let l: int = liquidity as int;
    let n: int = d * l;
    assert(0 <= n) by (nonlinear_arith)
        requires
            n == d * l,
            d > 0,
            l > 0,
    ;
    lemma_div_floor_ceil(n, 0x1_0000_0000_0000_0000);
    lemma_ceil_minus_one(n, 0x1_0000_0000_0000_0000);
    let c = spec_div_ceil(n, 0x1_0000_0000_0000_0000);
    let m: int = net as int * 0x1_0000_0000_0000_0000;
    assert(0 <= m <= u128::MAX) by (nonlinear_arith)
        requires
            m == net as int * 0x1_0000_0000_0000_0000,
            0 <= net <= 0xffff_ffff_ffff_ffff,
    ;
    assert(m < n) by (nonlinear_arith)
        requires
            m == net as int * 0x1_0000_0000_0000_0000,
            net <= c - 1,
            (c - 1) * 0x1_0000_0000_0000_0000 < n || n == 0,
            n == 0 ==> c == 0,
            0 <= net,
    ;
    lemma_div_floor_ceil(m, l);
    let f = m / l;
    assert(f < d) by (nonlinear_arith)
        requires
            f * l <= m,
            m < d * l,
            l > 0,
    ;
}

/// Output of asset B that the move to the target would exceed leaves the
/// price between the target and where it was.
pub proof fn lemma_output_b_stays_in_reach(
    price: u128,
    target: u128,
    liquidity: u128,
    remaining: u64,
)
    requires
        target < price,
        liquidity > 0,
        remaining < spec_raw_delta_b(target, price, liquidity, false),
    ensures
        target <= spec_price_after_output_b(price, liquidity, remaining) <= price,
        0 <= remaining as int * 0x1_0000_0000_0000_0000 <= u128::MAX,
        spec_div_ceil(remaining as int * 0x1_0000_0000_0000_0000, liquidity as int) <= price
            - target,
{
    let d: int = price - target;
    let l: int = liquidity as int;
    let n: int = d * l;
    assert(0 <= n) by (nonlinear_arith)
        requires
            n == d * l,
            d > 0,
            l > 0,
    ;
    lemma_div_floor_ceil(n, 0x1_0000_0000_0000_0000);
    let fl = n / 0x1_0000_0000_0000_0000;
    let m: int = remaining as int * 0x1_0000_0000_0000_0000;
    assert(0 <= m <= u128::MAX) by (nonlinear_arith)
        requires
            m == remaining as int * 0x1_0000_0000_0000_0000,
            0 <= remaining <= 0xffff_ffff_ffff_ffff,
    ;
    assert(m < n) by (nonlinear_arith)
        requires
            m == remaining as int * 0x1_0000_0000_0000_0000,
            remaining + 1 <= fl,
            fl * 0x1_0000_0000_0000_0000 <= n,
    ;
    lemma_div_floor_ceil(m, l);
    lemma_ceil_minus_one(m, l);
    let c = spec_div_ceil(m, l);
    assert(c <= d) by (nonlinear_arith)
        requires
            (c - 1) * l < m || m == 0,
            m == 0 ==> c == 0,
            m < d * l,
            l > 0,
            d > 0,
    ;
    assert(0 <= c);
}

/// Output of asset A that the move to the target would exceed leaves the
/// price between where it was and the target.
pub proof fn lemma_output_a_stays_in_reach(
    price: u128,
    target: u128,
    liquidity: u128,
    remaining: u64,
)
    requires
        0 < price < target,
        liquidity as int * 0x1_0000_0000_0000_0000 <= u128::MAX,
        remaining < spec_raw_delta_a(price, target, liquidity, false),
    ensures
        price <= spec_price_after_output_a(price, liquidity, remaining) <= target,
        0 < (liquidity as int * 0x1_0000_0000_0000_0000) / (price as int) - remaining,
{
    let n: int = liquidity as int * 0x1_0000_0000_0000_0000;
    assert(0 <= n) by (nonlinear_arith)
        requires
            n == liquidity as int * 0x1_0000_0000_0000_0000,
            0 <= liquidity,
    ;
    let p = price as int;
    let t = target as int;
    lemma_div_floor_ceil(n, p);
    lemma_div_floor_ceil(n, t);
    let q = n / p;
    let x = q - remaining;
    // what is left of the quotient, times the target, is still above n
    lemma_delta_a_brackets_exact(price, target, liquidity);
    let down = spec_raw_delta_a(price, target, liquidity, false);
    let y = n - (remaining + 1) * p;
    assert(n * p <= t * y) by (nonlinear_arith)
        requires
            down * (p * t) <= n * (t - p),
            remaining + 1 <= down,
            y == n - (remaining + 1) * p,
            p > 0,
            t > 0,
    ;
    assert(y < x * p) by (nonlinear_arith)
        requires
            y == n - (remaining + 1) * p,
            n < (q + 1) * p,
            x == q - remaining,
    ;
    assert(n * p < (x * t) * p) by (nonlinear_arith)
        requires
            n * p <= t * y,
            y < x * p,
            t > 0,
    ;
    assert(n < x * t) by (nonlinear_arith)
        requires
            n * p < (x * t) * p,
            p > 0,
    ;
    assert(x > 0) by (nonlinear_arith)
        requires
            0 <= n,
            n < x * t,
            t > 0,
    ;
    lemma_div_floor_ceil(n, x);
    let f = n / x;
    let up = spec_div_ceil(n, x);
    assert(f < t) by (nonlinear_arith)
        requires
            f * x <= n,
            n < x * t,
            x > 0,
    ;
    assert(up >= p) by (nonlinear_arith)
        requires
            n <= up * x,
            q * p <= n,
            x <= q,
            x > 0,
            p > 0,
            up >= 0,
    ;
}

/// Every step moves the price toward its target and never past it.
pub proof fn lemma_step_moves_toward_target(
    price: u128,
    target: u128,
    liquidity: u128,
    remaining: u64,
    fee_rate: u16,
    exact_in: bool,
    a_to_b: bool,
)
    requires
        spec_swap_step(price, target, liquidity, remaining, fee_rate, exact_in, a_to_b) is Ok,
    ensures
        ({
            let step = spec_swap_step(
                price,
                target,
                liquidity,
                remaining,
                fee_rate,
                exact_in,
                a_to_b,
            ).unwrap();
            &&& a_to_b ==> target <= step.next_price <= price
            &&& !a_to_b ==> price <= step.next_price <= target
        }),
{
    if liquidity == 0 || price == target {
    } else if exact_in {
        lemma_fee_amount_bounded(remaining, fee_rate);
        let net = (remaining - spec_fee_amount(remaining, fee_rate)) as u64;
        if a_to_b {
            lemma_raw_delta_a_fits(target, price, liquidity);
            if !(spec_wide_delta_a(target, price, liquidity, true).unwrap() <= net) {
                lemma_input_a_stays_in_reach(price, target, liquidity, net);
            }
        } else {
            lemma_raw_delta_b_fits(price, target, liquidity);
            if !(spec_wide_delta_b(price, target, liquidity, true).unwrap() <= net) {
                lemma_input_b_stays_in_reach(price, target, liquidity, net);
            }
        }
    } else {
        if a_to_b {
            lemma_raw_delta_b_fits(target, price, liquidity);
            if !(spec_wide_delta_b(target, price, liquidity, false).unwrap() <= remaining) {
                lemma_output_b_stays_in_reach(price, target, liquidity, remaining);
            }
        } else {
            lemma_raw_delta_a_fits(price, target, liquidity);
            if !(spec_wide_delta_a(price, target, liquidity, false).unwrap() <= remaining) {
                lemma_output_a_stays_in_reach(price, target, liquidity, remaining);
            }
        }
    }
}

/// What a move of the price from `price` to `next` costs the trader,
/// rounded up, without the limit of 64 bits.
pub open spec fn spec_move_cost(price: u128, next: u128, liquidity: u128, a_to_b: bool) -> int {
    if price == next {
        0
    } else if a_to_b {
        spec_raw_delta_a(next, price, liquidity, true)
    } else {
        spec_raw_delta_b(price, next, liquidity, true)
    }
}

/// What a move of the price from `price` to `next` yields the trader,
/// rounded down, without the limit of 64 bits.
pub open spec fn spec_move_proceeds(price: u128, next: u128, liquidity: u128, a_to_b: bool) -> int {
    if price == next {
        0
    } else if a_to_b {
        spec_raw_delta_b(next, price, liquidity, false)
    } else {
        spec_raw_delta_a(price, next, liquidity, false)
    }
}

/// The amounts of a step stand on the safe side of what the move of the
/// price costs and yields.
pub open spec fn spec_step_favors_pool(
    step: SwapStep,
    price: u128,
    liquidity: u128,
    a_to_b: bool,
) -> bool {
    &&& spec_move_cost(price, step.next_price, liquidity, a_to_b) <= step.amount_in
    &&& step.amount_out <= spec_move_proceeds(price, step.next_price, liquidity, a_to_b)
}

/// Every step favors the pool: the trader pays at least what the move of
/// the price costs, rounded up, and receives at most what it yields,
/// rounded down.
pub proof fn lemma_step_favors_pool(
    price: u128,
    target: u128,
    liquidity: u128,
    remaining: u64,
    fee_rate: u16,
    exact_in: bool,
    a_to_b: bool,
)
    requires
        spec_swap_step(price, target, liquidity, remaining, fee_rate, exact_in, a_to_b) is Ok,
    ensures
        spec_step_favors_pool(
            spec_swap_step(
                price,
                target,
                liquidity,
                remaining,
                fee_rate,
                exact_in,
                a_to_b,
            ).unwrap(),
            price,
            liquidity,
            a_to_b,
        ),
{
    if liquidity == 0 || price == target {
        lemma_idle_step_favors_pool(price, target, liquidity, a_to_b);
    } else if exact_in {
        lemma_fee_amount_bounded(remaining, fee_rate);
        if a_to_b {
            lemma_input_a_favors_pool(price, target, liquidity, remaining, fee_rate);
        } else {
            lemma_input_b_favors_pool(price, target, liquidity, remaining, fee_rate);
        }
    } else {
        if a_to_b {
            lemma_output_b_favors_pool(price, target, liquidity, remaining, fee_rate);
        } else {
            lemma_output_a_favors_pool(price, target, liquidity, remaining, fee_rate);
        }
    }
}

/// Nothing divided by a price is nothing, rounded either way.
proof fn lemma_zero_quotients(d: int)
    requires
        d > 0,
    ensures
        spec_div_floor(0, d) == 0,
        spec_div_ceil(0, d) == 0,
{
    vstd::arithmetic::div_mod::lemma_small_mod(0, d as nat);
    vstd::arithmetic::div_mod::lemma_basic_div(0, d);
}

proof fn lemma_idle_step_favors_pool(price: u128, target: u128, liquidity: u128, a_to_b: bool)
    requires
        price > 0,
        target > 0,
        liquidity == 0 || price == target,
    ensures
        spec_step_favors_pool(
            SwapStep { next_price: target, amount_in: 0, amount_out: 0, fee_amount: 0 },
            price,
            liquidity,
            a_to_b,
        ),
{
    if price != target {
        lemma_zero_quotients(price as int);
        lemma_zero_quotients(target as int);
        assert(liquidity as int * 0x1_0000_0000_0000_0000 == 0);
        let d = price as int * target as int;
        assert(d > 0 && d == target as int * price as int) by (nonlinear_arith)
            requires
                d == price as int * target as int,
                price > 0,
                target > 0,
        ;
        lemma_zero_quotients(d);
        assert(0int * (target as int - price as int) == 0);
        assert(0int * (price as int - target as int) == 0);
        assert((target as int - price as int) * (liquidity as int) == 0) by (nonlinear_arith)
            requires
                liquidity == 0,
        ;
        assert((price as int - target as int) * (liquidity as int) == 0) by (nonlinear_arith)
            requires
                liquidity == 0,
        ;
    }
}

proof fn lemma_input_a_favors_pool(
    price: u128,
    target: u128,
    liquidity: u128,
    remaining: u64,
    fee_rate: u16,
)
    requires
        0 < target < price,
        liquidity > 0,
        fee_rate <= MAX_FEE_RATE,
        spec_step_exact_in(price, target, liquidity, remaining, fee_rate, true) is Ok,
    ensures
        spec_step_favors_pool(
            spec_step_exact_in(price, target, liquidity, remaining, fee_rate, true).unwrap(),
            price,
            liquidity,
            true,
        ),
{
    lemma_fee_amount_bounded(remaining, fee_rate);
    lemma_raw_delta_a_fits(target, price, liquidity);
    let step = spec_step_exact_in(price, target, liquidity, remaining, fee_rate, true).unwrap();
    let fee_total = spec_fee_amount(remaining, fee_rate) as u64;
    let net = (remaining - fee_total) as u64;
    let m = spec_wide_delta_a(target, price, liquidity, true).unwrap();
    let n: int = liquidity as int * 0x1_0000_0000_0000_0000;
    assert(0 <= n) by (nonlinear_arith)
        requires
            n == liquidity as int * 0x1_0000_0000_0000_0000,
            0 <= liquidity,
    ;
    if !(m <= net) {
        lemma_input_a_stays_in_reach(price, target, liquidity, net);
        let next = step.next_price;
        if net > 0 {
            let q = n / (price as int);
            let x = q + net;
            assert(next == spec_div_ceil(n, x));
            lemma_div_floor_ceil(n, price as int);
            lemma_ceil_of_quotient_by_ceil(n, x);
            assert(spec_div_ceil(n, next as int) <= x);
            if next != price {
                lemma_delta_a_within_outer(next, price, liquidity);
                assert(spec_raw_delta_a(next, price, liquidity, true) <= net);
            }
        }
    }
}

proof fn lemma_input_b_favors_pool(
    price: u128,
    target: u128,
    liquidity: u128,
    remaining: u64,
    fee_rate: u16,
)
    requires
        0 < price < target,
        liquidity > 0,
        fee_rate <= MAX_FEE_RATE,
        spec_step_exact_in(price, target, liquidity, remaining, fee_rate, false) is Ok,
    ensures
        spec_step_favors_pool(
            spec_step_exact_in(price, target, liquidity, remaining, fee_rate, false).unwrap(),
            price,
            liquidity,
            false,
        ),
{
    lemma_fee_amount_bounded(remaining, fee_rate);
    lemma_raw_delta_b_fits(price, target, liquidity);
    let step = spec_step_exact_in(price, target, liquidity, remaining, fee_rate, false).unwrap();
    let fee_total = spec_fee_amount(remaining, fee_rate) as u64;
    let net = (remaining - fee_total) as u64;
    let m = spec_wide_delta_b(price, target, liquidity, true).unwrap();
    if m <= net {
        lemma_delta_a_brackets_exact(price, target, liquidity);
    } else {
        lemma_input_b_stays_in_reach(price, target, liquidity, net);
        if step.next_price != price {
            lemma_delta_a_brackets_exact(price, step.next_price, liquidity);
        }
        let next = step.next_price;
        let l = liquidity as int;
        let mm: int = net as int * 0x1_0000_0000_0000_0000;
        let f = mm / l;
        assert(next == price + f);
        lemma_div_floor_ceil(mm, l);
        let d: int = (next - price) * l;
        assert(d == f * l) by (nonlinear_arith)
            requires
                next - price == f,
                d == (next - price) * l,
        ;
        assert(0 <= d) by (nonlinear_arith)
            requires
                d == f * l,
                f >= 0,
                l >= 0,
        ;
        let t: int = (target - price) * l;
        assert(d <= t) by (nonlinear_arith)
            requires
                d == (next - price) * l,
                t == (target - price) * l,
                next <= target,
                l >= 0,
        ;
        lemma_div_floor_ceil(d, 0x1_0000_0000_0000_0000);
        lemma_ceil_minus_one(d, 0x1_0000_0000_0000_0000);
        let c = spec_div_ceil(d, 0x1_0000_0000_0000_0000);
        assert(c <= net) by (nonlinear_arith)
            requires
                (c - 1) * 0x1_0000_0000_0000_0000 < d || d == 0,
                d == 0 ==> c == 0,
                d <= mm,
                mm == net as int * 0x1_0000_0000_0000_0000,
                0 <= net,
        ;
        if next != price {
            assert(spec_raw_delta_b(price, next, liquidity, true) == c);
        }
    }
}

proof fn lemma_output_b_favors_pool(
    price: u128,
    target: u128,
    liquidity: u128,
    remaining: u64,
    fee_rate: u16,
)
    requires
        0 < target < price,
        liquidity > 0,
        spec_step_exact_out(price, target, liquidity, remaining, fee_rate, true) is Ok,
    ensures
        spec_step_favors_pool(
            spec_step_exact_out(price, target, liquidity, remaining, fee_rate, true).unwrap(),
            price,
            liquidity,
            true,
        ),
{
    lemma_raw_delta_b_fits(target, price, liquidity);
    let step = spec_step_exact_out(price, target, liquidity, remaining, fee_rate, true).unwrap();
    let m = spec_wide_delta_b(target, price, liquidity, false).unwrap();
    if !(m <= remaining) {
        lemma_output_b_stays_in_reach(price, target, liquidity, remaining);
        let next = step.next_price;
        let l = liquidity as int;
        let mm: int = remaining as int * 0x1_0000_0000_0000_0000;
        let c = spec_div_ceil(mm, l);
        assert(next == price - c);
        lemma_div_floor_ceil(mm, l);
        let d: int = (price - next) * l;
        assert(d == c * l) by (nonlinear_arith)
            requires
                price - next == c,
                d == (price - next) * l,
        ;
        assert(d >= mm);
        lemma_div_floor_ceil(d, 0x1_0000_0000_0000_0000);
        let f = d / 0x1_0000_0000_0000_0000;
        assert(f >= remaining) by (nonlinear_arith)
            requires
                d >= mm,
                mm == remaining as int * 0x1_0000_0000_0000_0000,
                d < (f + 1) * 0x1_0000_0000_0000_0000,
        ;
        let t: int = (price - target) * l;
        assert(d <= t) by (nonlinear_arith)
            requires
                d == (price - next) * l,
                t == (price - target) * l,
                target <= next,
                l >= 0,
        ;
        let ft = t / 0x1_0000_0000_0000_0000;
        lemma_div_floor_ceil(t, 0x1_0000_0000_0000_0000);
        assert(f <= ft) by (nonlinear_arith)
            requires
                f * 0x1_0000_0000_0000_0000 <= d,
                d <= t,
                t < (ft + 1) * 0x1_0000_0000_0000_0000,
        ;
        if next != price {
            assert(spec_raw_delta_b(next, price, liquidity, false) == f);
        } else {
            // the price stands still only where nothing goes out
            assert(remaining == 0) by (nonlinear_arith)
                requires
                    mm <= c * l,
                    c == 0,
                    mm == remaining as int * 0x1_0000_0000_0000_0000,
                    remaining >= 0,
            ;
        }
    }
}

proof fn lemma_output_a_favors_pool(
    price: u128,
    target: u128,
    liquidity: u128,
    remaining: u64,
    fee_rate: u16,
)
    requires
        0 < price < target,
        liquidity > 0,
        spec_step_exact_out(price, target, liquidity, remaining, fee_rate, false) is Ok,
    ensures
        spec_step_favors_pool(
            spec_step_exact_out(price, target, liquidity, remaining, fee_rate, false).unwrap(),
            price,
            liquidity,
            false,
        ),
{
    lemma_raw_delta_a_fits(price, target, liquidity);
    let step = spec_step_exact_out(price, target, liquidity, remaining, fee_rate, false).unwrap();
    let m = spec_wide_delta_a(price, target, liquidity, false).unwrap();
    let n: int = liquidity as int * 0x1_0000_0000_0000_0000;
    assert(0 <= n) by (nonlinear_arith)
        requires
            n == liquidity as int * 0x1_0000_0000_0000_0000,
            0 <= liquidity,
    ;
    if !(m <= remaining) {
        lemma_output_a_stays_in_reach(price, target, liquidity, remaining);
        let next = step.next_price;
        let q = n / (price as int);
        let x = q - remaining;
        assert(next == spec_div_ceil(n, x));
        lemma_div_floor_ceil(n, price as int);
        lemma_ceil_of_quotient_by_ceil(n, x);
        assert(spec_div_ceil(n, next as int) <= x);
        if next != price {
            lemma_delta_a_within_outer(price, next, liquidity);
            lemma_div_floor_ceil(n, next as int);
            assert(spec_raw_delta_a(price, next, liquidity, false) >= remaining);
        }
    }
}

/// Dividing by the rounded-up quotient by `x` gives, rounded up, no more
/// than `x`.
proof fn lemma_ceil_of_quotient_by_ceil(n: int, x: int)
    requires
        0 <= n,
        0 < x,
        spec_div_ceil(n, x) > 0,
    ensures
        spec_div_ceil(n, spec_div_ceil(n, x)) <= x,
{
    let up = spec_div_ceil(n, x);
    lemma_div_floor_ceil(n, x);
    lemma_div_floor_ceil(n, up);
    lemma_ceil_minus_one(n, up);
    let c = spec_div_ceil(n, up);
    assert(c <= x) by (nonlinear_arith)
        requires
            n <= up * x,
            (c - 1) * up < n || n == 0,
            n == 0 ==> c == 0,
            up > 0,
            x > 0,
    ;
}

/// Computes the price after an input of asset A that does not reach the
/// target.
fn price_after_input_a(price: u128, target: u128, liquidity: u128, net: u64) -> (r: u128)
    requires
        0 < target < price,
        liquidity as int * 0x1_0000_0000_0000_0000 <= u128::MAX,
        net < spec_raw_delta_a(target, price, liquidity, true),
    ensures
        r == spec_price_after_input_a(price, liquidity, net),
        target <= r <= price,
{
    proof {
        lemma_input_a_stays_in_reach(price, target, liquidity, net);
    }
    if net == 0 {
        return price;
    }
    let n: u128 = liquidity * 0x1_0000_0000_0000_0000u128;
    let q: u128 = n / price;
    let x: u128 = q + net as u128;
    div_ceil(n, x)
}

/// Computes the price after an input of asset B that does not reach the
/// target.
fn price_after_input_b(price: u128, target: u128, liquidity: u128, net: u64) -> (r: u128)
    requires
        price < target,
        liquidity > 0,
        net < spec_raw_delta_b(price, target, liquidity, true),
    ensures
        r == spec_price_after_input_b(price, liquidity, net),
        price <= r <= target,
{
    proof {
        lemma_input_b_stays_in_reach(price, target, liquidity, net);
    }
    let m: u128 = (net as u128) * 0x1_0000_0000_0000_0000u128;
    price + m / liquidity
}

/// Computes the price after an output of asset B that the move to the
/// target would exceed.
fn price_after_output_b(price: u128, target: u128, liquidity: u128, remaining: u64) -> (r: u128)
    requires
        target < price,
        liquidity > 0,
        remaining < spec_raw_delta_b(target, price, liquidity, false),
    ensures
        r == spec_price_after_output_b(price, liquidity, remaining),
        target <= r <= price,
{
    proof {
        lemma_output_b_stays_in_reach(price, target, liquidity, remaining);
    }
    let m: u128 = (remaining as u128) * 0x1_0000_0000_0000_0000u128;
    price - div_ceil(m, liquidity)
}

/// Computes the price after an output of asset A that the move to the
/// target would exceed.
fn price_after_output_a(price: u128, target: u128, liquidity: u128, remaining: u64) -> (r: u128)
    requires
        0 < price < target,
        liquidity as int * 0x1_0000_0000_0000_0000 <= u128::MAX,
        remaining < spec_raw_delta_a(price, target, liquidity, false),
    ensures
        r == spec_price_after_output_a(price, liquidity, remaining),
        price <= r <= target,
{
    proof {
        lemma_output_a_stays_in_reach(price, target, liquidity, remaining);
    }
    let n: u128 = liquidity * 0x1_0000_0000_0000_0000u128;
    let q: u128 = n / price;
    let x: u128 = q - remaining as u128;
    div_ceil(n, x)
}

fn step_exact_in(
    price: u128,
    target: u128,
    liquidity: u128,
    remaining: u64,
    fee_rate: u16,
    a_to_b: bool,
) -> (r: Result<SwapStep, PoolError>)
    requires
        fee_rate <= MAX_FEE_RATE,
        price > 0,
        target > 0,
        liquidity > 0,
        price != target,
        a_to_b ==> target < price,
        !a_to_b ==> target > price,
    ensures
        r == spec_step_exact_in(price, target, liquidity, remaining, fee_rate, a_to_b),
        r is Ok ==> spec_step_is_sound(r.unwrap(), price, target, remaining, true, a_to_b),
{
    let fee_total: u64 = fee_at_valid_rate(remaining, fee_rate);
    let net: u64 = remaining - fee_total;
    let wide = if a_to_b {
        amount_delta_a_wide(target, price, liquidity, true)
    } else {
        amount_delta_b_wide(price, target, liquidity, true)
    };
    let max_in: u128 = match wide {
        Ok(m) => m,
        Err(e) => { return Err(e); },
    };
    let reached: bool = max_in <= net as u128;
    let next: u128;
    let amount_in: u64;
    let fee: u64;
    if reached {
        next = target;
        amount_in = max_in as u64;
        fee = fee_at_valid_rate(amount_in, fee_rate);
        proof {
            lemma_fee_amount_monotonic(amount_in, remaining, fee_rate);
        }
    } else {
        next = if a_to_b {
            price_after_input_a(price, target, liquidity, net)
        } else {
            price_after_input_b(price, target, liquidity, net)
        };
        amount_in = net;
        fee = fee_total;
    }
    let output = if a_to_b {
        get_amount_delta_b(next, price, liquidity, false)
    } else {
        get_amount_delta_a(price, next, liquidity, false)
    };
    let amount_out: u64 = match output {
        Ok(v) => v,
        Err(e) => { return Err(e); },
    };
    Ok(SwapStep { next_price: next, amount_in, amount_out, fee_amount: fee })
}

fn step_exact_out(
    price: u128,
    target: u128,
    liquidity: u128,
    remaining: u64,
    fee_rate: u16,
    a_to_b: bool,
) -> (r: Result<SwapStep, PoolError>)
    requires
        fee_rate <= MAX_FEE_RATE,
        price > 0,
        target > 0,
        liquidity > 0,
        price != target,
        a_to_b ==> target < price,
        !a_to_b ==> target > price,
    ensures
        r == spec_step_exact_out(price, target, liquidity, remaining, fee_rate, a_to_b),
        r is Ok ==> spec_step_is_sound(r.unwrap(), price, target, remaining, false, a_to_b),
{
    let wide = if a_to_b {
        amount_delta_b_wide(target, price, liquidity, false)
    } else {
        amount_delta_a_wide(price, target, liquidity, false)
    };
    let max_out: u128 = match wide {
        Ok(m) => m,
        Err(e) => { return Err(e); },
    };
    let reached: bool = max_out <= remaining as u128;
    let next: u128;
    let amount_out: u64;
    if reached {
        next = target;
        amount_out = max_out as u64;
    } else {
        next = if a_to_b {
            price_after_output_b(price, target, liquidity, remaining)
        } else {
            price_after_output_a(price, target, liquidity, remaining)
        };
        amount_out = remaining;
    }
    let input = if a_to_b {
        get_amount_delta_a(next, price, liquidity, true)
    } else {
        get_amount_delta_b(price, next, liquidity, true)
    };
    let amount_in: u64 = match input {
        Ok(v) => v,
        Err(e) => { return Err(e); },
    };
    let fee: u64 = fee_at_valid_rate(amount_in, fee_rate);
    Ok(SwapStep { next_price: next, amount_in, amount_out, fee_amount: fee })
}

/// Computes one step of a swap: from `price` toward `target`, at constant
/// liquidity, spending up to `remaining` of the input asset
/// (`exact_in`) or yielding up to `remaining` of the output asset.
///
/// With `a_to_b` asset A comes in and the price falls, so the target must
/// not lie above the price; else asset B comes in and the price rises.
pub fn compute_swap_step(
    price: u128,
    target: u128,
    liquidity: u128,
    remaining: u64,
    fee_rate: u16,
    exact_in: bool,
    a_to_b: bool,
) -> (r: Result<SwapStep, PoolError>)
    ensures
        r == spec_swap_step(price, target, liquidity, remaining, fee_rate, exact_in, a_to_b),
        r is Ok ==> spec_step_is_sound(r.unwrap(), price, target, remaining, exact_in, a_to_b),
{
    if fee_rate > MAX_FEE_RATE {
        return Err(PoolError::FeeRateMaxExceeded);
    }
    if price == 0 || target == 0 {
        return Err(PoolError::SqrtPriceOutOfBounds);
    }
    if (a_to_b && target > price) || (!a_to_b && target < price) {
        return Err(PoolError::InvalidSqrtPriceLimitDirection);
    }
    if liquidity == 0 || price == target {
        return Ok(SwapStep { next_price: target, amount_in: 0, amount_out: 0, fee_amount: 0 });
    }
    if exact_in {
        step_exact_in(price, target, liquidity, remaining, fee_rate, a_to_b)
    } else {
        step_exact_out(price, target, liquidity, remaining, fee_rate, a_to_b)
    }
}

} // verus!
