use vstd::prelude::*;
use crate::constants::{
    MAX_SQRT_PRICE, MAX_TICK_INDEX, MIN_SQRT_PRICE, MIN_TICK_INDEX, NUM_REWARDS,
};
use crate::errors::PoolError;
use crate::manager::reward_manager::{next_reward_infos, spec_next_reward_infos};
use crate::manager::liquidity_manager::spec_growths_of;
use crate::manager::tick_manager::{
    cross_tick, liquidity_after_cross, spec_cross_tick, spec_liquidity_after_cross,
};
use crate::manager::tick_registry::TickRegistry;
use crate::math::fee_math::{
    calculate_protocol_fee, fee_growth_delta, lemma_fee_growth_delta_bounded,
    lemma_protocol_fee_bounded, spec_fee_growth_delta, spec_protocol_fee,
};
use crate::math::growth_math::{lemma_wrapping_laws, spec_wrapping_add, spec_wrapping_sub, wrapping_add};
use crate::math::price_math::{
    lemma_sqrt_price_bounds, lemma_sqrt_price_step_never_falls, spec_sqrt_price_at_tick, spec_price_has_tick,
    spec_tick_of_price, sqrt_price_near_tick, sqrt_price_to_tick,
};
use crate::math::swap_math::{compute_swap_step, spec_swap_step, SwapStep};
use crate::math::tick_math::spec_tick_in_bounds;
use crate::state::pool::{spec_pool_price_valid, spec_price_in_tick, Pool};
use crate::state::tick::Tick;

verus! {

/// Where a swap stands between two steps.
#[derive(Clone, Copy, Debug, PartialEq, Eq)]
pub struct SwapState {
    /// The square-root price.
    pub sqrt_price: u128,
    /// The tick the price stands in.
    pub tick: i32,
    /// The liquidity active at the price.
    pub liquidity: u128,
    /// What is left of the amount asked for.
    pub remaining: u64,
    /// Input taken so far, fees included.
    pub amount_in: u64,
    /// Output paid so far.
    pub amount_out: u64,
    /// Fees charged so far.
    pub fee_amount: u64,
    /// The protocol's share of the fees so far.
    pub protocol_fee: u64,
    /// The fee-growth accumulator of the input asset.
    pub fee_growth: u128,
    /// By how much the swap has raised that accumulator.
    pub growth_accrued: u128,
}

/// What stays the same through a swap.
#[derive(Clone, Copy, Debug, PartialEq, Eq)]
pub struct SwapEnv {
    /// The price at which the swap stops at the latest.
    pub sqrt_price_limit: u128,
    /// Fee rate of the pool.
    pub fee_rate: u16,
    /// Protocol fee rate of the pool.
    pub protocol_fee_rate: u16,
    /// Whether the amount asked for is the input.
    pub exact_in: bool,
    /// Whether asset A comes in, so that the price falls.
    pub a_to_b: bool,
    /// The fee-growth accumulator of the output asset.
    pub fee_growth_other: u128,
    /// The growth accumulators of the reward streams.
    pub reward_growths: [u128; NUM_REWARDS],
}

/// A tick that a swap has crossed, with its record after the crossing.
#[derive(Clone, Copy, Debug, PartialEq, Eq)]
pub struct CrossedTick {
    pub tick_index: i32,
    pub record: Tick,
}

/// What one iteration of a swap gives: the state after it, the tick it
/// crossed if it crossed one, and whether the swap is over.
#[derive(Clone, Copy, Debug, PartialEq, Eq)]
pub struct SwapIteration {
    pub state: SwapState,
    pub crossed: Option<CrossedTick>,
    pub done: bool,
}

/// What a swap reports.
#[derive(Clone, Copy, Debug, PartialEq, Eq)]
pub struct SwapResult {
    /// Input owed by the trader, fees included.
    pub amount_in: u64,
    /// Output owed to the trader.
    pub amount_out: u64,
    /// Fees charged, part of `amount_in`.
    pub fee_amount: u64,
    /// The protocol's share of the fees.
    pub protocol_fee: u64,
    /// Direction of the swap.
    pub a_to_b: bool,
    /// The price after the swap.
    pub sqrt_price: u128,
    /// The tick after the swap.
    pub tick_index: i32,
    /// By how much the swap raised the fee-growth accumulator of the
    /// input asset.
    pub fee_growth_accrued: u128,
}

/// Everything a swap writes.
pub struct SwapPlan {
    pub pool: Pool,
    pub crossed: Seq<CrossedTick>,
    pub result: SwapResult,
}

/// The price a step aims at: the price of the next initialized tick, or
/// the limit where that comes first or no such tick is left.
pub open spec fn spec_step_target(next: Option<int>, env: SwapEnv) -> u128 {
    match next {
        None => env.sqrt_price_limit,
        Some(t) => {
            let p = spec_sqrt_price_at_tick(t) as u128;
            if env.a_to_b {
                if p >= env.sqrt_price_limit {
                    p
                } else {
                    env.sqrt_price_limit
                }
            } else {
                if p <= env.sqrt_price_limit {
                    p
                } else {
                    env.sqrt_price_limit
                }
            }
        },
    }
}

/// The state after a step is booked: the price moves, the amounts join
/// the totals, the protocol takes its share of the fee, and the rest of
/// the fee raises the fee growth by its share per unit of liquidity.
/// An error where a total does not fit.
pub open spec fn spec_book_step(state: SwapState, step: SwapStep, env: SwapEnv) -> Result<
    SwapState,
    PoolError,
> {
    let used = if env.exact_in {
        step.amount_in + step.fee_amount
    } else {
        step.amount_out as int
    };
    let protocol = spec_protocol_fee(step.fee_amount, env.protocol_fee_rate);
    let delta = spec_fee_growth_delta((step.fee_amount - protocol) as u64, state.liquidity);
    if env.protocol_fee_rate > crate::constants::MAX_PROTOCOL_FEE_RATE {
        Err(PoolError::ProtocolFeeRateMaxExceeded)
    } else if used > state.remaining {
        Err(PoolError::LiquidityOverflow)
    } else if state.amount_in + step.amount_in + step.fee_amount > u64::MAX || state.amount_out
        + step.amount_out > u64::MAX || state.fee_amount + step.fee_amount > u64::MAX
        || state.protocol_fee + protocol > u64::MAX || state.growth_accrued + delta > u128::MAX {
        Err(PoolError::LiquidityOverflow)
    } else {
        Ok(
            SwapState {
                sqrt_price: step.next_price,
                tick: state.tick,
                liquidity: state.liquidity,
                remaining: (state.remaining - used) as u64,
                amount_in: (state.amount_in + step.amount_in + step.fee_amount) as u64,
                amount_out: (state.amount_out + step.amount_out) as u64,
                fee_amount: (state.fee_amount + step.fee_amount) as u64,
                protocol_fee: (state.protocol_fee + protocol) as u64,
                fee_growth: spec_wrapping_add(state.fee_growth, delta as u128),
                growth_accrued: (state.growth_accrued + delta) as u128,
            },
        )
    }
}

/// The iteration that ends on an initialized tick: the tick is crossed.
/// Its net liquidity joins or leaves the active liquidity, its growth
/// outside is flipped against the running totals, and the current tick
/// moves across it. The swap goes on unless nothing remains or the limit
/// is reached.
pub open spec fn spec_cross_reached_tick(
    booked: SwapState,
    tick_index: int,
    record: Tick,
    env: SwapEnv,
) -> Result<SwapIteration, PoolError> {
    let liquidity = spec_liquidity_after_cross(booked.liquidity, record.liquidity_net, env.a_to_b);
    if !(0 <= liquidity <= u128::MAX) {
        Err(PoolError::LiquidityOverflow)
    } else {
        Ok(
            SwapIteration {
                state: SwapState {
                    liquidity: liquidity as u128,
                    tick: if env.a_to_b {
                        (tick_index - 1) as i32
                    } else {
                        tick_index as i32
                    },
                    ..booked
                },
                crossed: Some(
                    CrossedTick {
                        tick_index: tick_index as i32,
                        record: if env.a_to_b {
                            spec_cross_tick(
                                record,
                                booked.fee_growth,
                                env.fee_growth_other,
                                env.reward_growths,
                            )
                        } else {
                            spec_cross_tick(
                                record,
                                env.fee_growth_other,
                                booked.fee_growth,
                                env.reward_growths,
                            )
                        },
                    },
                ),
                done: booked.remaining == 0 || booked.sqrt_price == env.sqrt_price_limit,
            },
        )
    }
}

/// The iteration that ends between two initialized ticks: the swap is
/// over. Where the price has moved, the current tick is the tick of the
/// price; where it has not, the current tick stays.
pub open spec fn spec_stop_between_ticks(price_before: u128, booked: SwapState) -> Result<
    SwapIteration,
    PoolError,
> {
    if booked.sqrt_price == price_before {
        Ok(SwapIteration { state: booked, crossed: None, done: true })
    } else if !spec_price_has_tick(booked.sqrt_price as int) {
        Err(PoolError::SqrtPriceOutOfBounds)
    } else {
        Ok(
            SwapIteration {
                state: SwapState {
                    tick: spec_tick_of_price(booked.sqrt_price as int) as i32,
                    ..booked
                },
                crossed: None,
                done: true,
            },
        )
    }
}

/// One iteration of a swap.
///
/// The step aims at the next initialized tick in the direction of travel,
/// or at the limit, whichever comes first, and is booked. Where the price
/// arrives on that tick, the tick is crossed; where it stops short of it,
/// the swap is over.
#[verifier::opaque]
pub open spec fn spec_swap_iteration(state: SwapState, env: SwapEnv, registry: TickRegistry) -> Result<
    SwapIteration,
    PoolError,
> {
    let next = registry.spec_next_initialized(state.tick as int, env.a_to_b);
    let target = spec_step_target(next, env);
    match spec_swap_step(
        state.sqrt_price,
        target,
        state.liquidity,
        state.remaining,
        env.fee_rate,
        env.exact_in,
        env.a_to_b,
    ) {
        Err(e) => Err(e),
        Ok(step) => match spec_book_step(state, step, env) {
            Err(e) => Err(e),
            Ok(booked) => {
                if next is Some && booked.sqrt_price == spec_sqrt_price_at_tick(next.unwrap()) {
                    spec_cross_reached_tick(
                        booked,
                        next.unwrap(),
                        registry.spec_tick_at(next.unwrap()).unwrap(),
                        env,
                    )
                } else {
                    spec_stop_between_ticks(state.sqrt_price, booked)
                }
            },
        },
    }
}

/// How far the current tick is from the end of the curve in the direction
/// of travel: it shrinks with every tick that is crossed.
pub open spec fn spec_swap_measure(tick: int, a_to_b: bool) -> int {
    if a_to_b {
        tick - (MIN_TICK_INDEX - 1)
    } else {
        MAX_TICK_INDEX - tick
    }
}

/// A swap from a state on: iterations until one says the swap is over,
/// with the ticks crossed on the way, in order.
pub open spec fn spec_swap_run(
    state: SwapState,
    crossed: Seq<CrossedTick>,
    env: SwapEnv,
    registry: TickRegistry,
) -> Result<(SwapState, Seq<CrossedTick>), PoolError>
    decreases spec_swap_measure(state.tick as int, env.a_to_b),
{
    match spec_swap_iteration(state, env, registry) {
        Err(e) => Err(e),
        Ok(it) => {
            let all = if it.crossed is Some {
                crossed.push(it.crossed.unwrap())
            } else {
                crossed
            };
            if it.done || !(0 <= spec_swap_measure(it.state.tick as int, env.a_to_b)
                < spec_swap_measure(state.tick as int, env.a_to_b)) {
                Ok((it.state, all))
            } else {
                spec_swap_run(it.state, all, env, registry)
            }
        },
    }
}

/// A swap from a state on is the iteration from that state, followed,
/// unless the swap is over, by the swap from the state after it.
pub proof fn lemma_swap_run_unfolds(
    state: SwapState,
    crossed: Seq<CrossedTick>,
    env: SwapEnv,
    registry: TickRegistry,
)
    ensures
        spec_swap_iteration(state, env, registry) is Err ==> spec_swap_run(
            state,
            crossed,
            env,
            registry,
        ) == Err::<(SwapState, Seq<CrossedTick>), PoolError>(
            spec_swap_iteration(state, env, registry)->Err_0,
        ),
        spec_swap_iteration(state, env, registry) is Ok ==> ({
            let it = spec_swap_iteration(state, env, registry).unwrap();
            let all = if it.crossed is Some {
                crossed.push(it.crossed.unwrap())
            } else {
                crossed
            };
            spec_swap_run(state, crossed, env, registry) == if it.done || !(0
                <= spec_swap_measure(it.state.tick as int, env.a_to_b) < spec_swap_measure(
                state.tick as int,
                env.a_to_b,
            )) {
                Ok::<(SwapState, Seq<CrossedTick>), PoolError>((it.state, all))
            } else {
                spec_swap_run(it.state, all, env, registry)
            }
        }),
{
}

/// The record of a tick after the crossed ticks are written to the
/// registry, the later over the earlier.
pub open spec fn spec_tick_after(
    registry: TickRegistry,
    crossed: Seq<CrossedTick>,
    tick_index: int,
) -> Option<Tick>
    decreases crossed.len(),
{
    if crossed.len() == 0 {
        registry.spec_tick_at(tick_index)
    } else if crossed.last().tick_index == tick_index {
        Some(crossed.last().record)
    } else {
        spec_tick_after(registry, crossed.drop_last(), tick_index)
    }
}

/// A price limit that a swap accepts: a valid price of a pool.
pub open spec fn spec_limit_in_bounds(sqrt_price_limit: u128) -> bool {
    spec_pool_price_valid(sqrt_price_limit as int)
}

/// What stays the same through a swap of a pool.
pub open spec fn spec_swap_env(
    pool: Pool,
    reward_growths: [u128; 3],
    sqrt_price_limit: u128,
    exact_in: bool,
    a_to_b: bool,
) -> SwapEnv {
    SwapEnv {
        sqrt_price_limit,
        fee_rate: pool.fee_rate,
        protocol_fee_rate: pool.protocol_fee_rate,
        exact_in,
        a_to_b,
        fee_growth_other: if a_to_b {
            pool.fee_growth_global_b
        } else {
            pool.fee_growth_global_a
        },
        reward_growths,
    }
}

/// The state a swap of a pool starts from.
pub open spec fn spec_swap_start(pool: Pool, amount: u64, a_to_b: bool) -> SwapState {
    SwapState {
        sqrt_price: pool.sqrt_price,
        tick: pool.tick_current_index,
        liquidity: pool.liquidity,
        remaining: amount,
        amount_in: 0,
        amount_out: 0,
        fee_amount: 0,
        protocol_fee: 0,
        fee_growth: if a_to_b {
            pool.fee_growth_global_a
        } else {
            pool.fee_growth_global_b
        },
        growth_accrued: 0,
    }
}

/// What a swap writes once its iterations are over: refused where
/// nothing at all was traded, or where the protocol fees owed no longer
/// fit; else the pool takes the price, tick, liquidity and fee growth of
/// the last state, and the protocol's share joins what it is owed.
pub open spec fn spec_swap_finish(
    pool: Pool,
    rewards: [crate::state::pool::RewardInfo; 3],
    run: Result<(SwapState, Seq<CrossedTick>), PoolError>,
    a_to_b: bool,
) -> Result<SwapPlan, PoolError> {
    match run {
        Err(e) => Err(e),
        Ok(end) => {
            let fin = end.0;
            let owed = if a_to_b {
                pool.protocol_fee_owed_a
            } else {
                pool.protocol_fee_owed_b
            };
            if fin.amount_in == 0 && fin.amount_out == 0 {
                Err(PoolError::ZeroTradableAmount)
            } else if owed + fin.protocol_fee > u64::MAX {
                Err(PoolError::LiquidityOverflow)
            } else {
                Ok(
                    SwapPlan {
                        pool: Pool {
                            tick_current_index: fin.tick,
                            sqrt_price: fin.sqrt_price,
                            liquidity: fin.liquidity,
                            fee_growth_global_a: if a_to_b {
                                fin.fee_growth
                            } else {
                                pool.fee_growth_global_a
                            },
                            fee_growth_global_b: if a_to_b {
                                pool.fee_growth_global_b
                            } else {
                                fin.fee_growth
                            },
                            protocol_fee_owed_a: if a_to_b {
                                (owed + fin.protocol_fee) as u64
                            } else {
                                pool.protocol_fee_owed_a
                            },
                            protocol_fee_owed_b: if a_to_b {
                                pool.protocol_fee_owed_b
                            } else {
                                (owed + fin.protocol_fee) as u64
                            },
                            reward_infos: rewards,
                            ..pool
                        },
                        crossed: end.1,
                        result: SwapResult {
                            amount_in: fin.amount_in,
                            amount_out: fin.amount_out,
                            fee_amount: fin.fee_amount,
                            protocol_fee: fin.protocol_fee,
                            a_to_b,
                            sqrt_price: fin.sqrt_price,
                            tick_index: fin.tick,
                            fee_growth_accrued: fin.growth_accrued,
                        },
                    },
                )
            }
        },
    }
}

/// What a swap writes and reports.
///
/// An amount of zero is refused as not tradable, a limit outside the
/// valid prices as out of bounds, and a limit that is not on the side of
/// the price to which the swap moves it as a limit in the wrong
/// direction. The reward streams are brought up to `timestamp` first.
/// Then the iterations run, and the swap is finished as
/// `spec_swap_finish` says.
pub open spec fn spec_swap(
    pool: Pool,
    registry: TickRegistry,
    amount: u64,
    sqrt_price_limit: u128,
    exact_in: bool,
    a_to_b: bool,
    timestamp: u64,
) -> Result<SwapPlan, PoolError> {
    if amount == 0 {
        Err(PoolError::ZeroTradableAmount)
    } else if !spec_limit_in_bounds(sqrt_price_limit) {
        Err(PoolError::SqrtPriceOutOfBounds)
    } else if (a_to_b && sqrt_price_limit >= pool.sqrt_price) || (!a_to_b && sqrt_price_limit
        <= pool.sqrt_price) {
        Err(PoolError::InvalidSqrtPriceLimitDirection)
    } else {
        match spec_next_reward_infos(pool.reward_infos, pool.liquidity, timestamp) {
            Err(e) => Err(e),
            Ok(rewards) => spec_swap_finish(
                pool,
                rewards,
                spec_swap_run(
                    spec_swap_start(pool, amount, a_to_b),
                    Seq::empty(),
                    spec_swap_env(
                        pool,
                        spec_growths_of(rewards),
                        sqrt_price_limit,
                        exact_in,
                        a_to_b,
                    ),
                    registry,
                ),
                a_to_b,
            ),
        }
    }
}

/// What holds of the state of a swap between two steps: the price is a
/// valid price of the pool and stands in the current tick, and the limit
/// is a valid price that the swap has not passed.
pub open spec fn spec_state_wf(state: SwapState, env: SwapEnv) -> bool {
    &&& spec_price_in_tick(state.sqrt_price as int, state.tick as int)
    &&& spec_pool_price_valid(state.sqrt_price as int)
    &&& spec_limit_in_bounds(env.sqrt_price_limit)
    &&& env.a_to_b ==> env.sqrt_price_limit <= state.sqrt_price
    &&& !env.a_to_b ==> state.sqrt_price <= env.sqrt_price_limit
}

/// What an iteration keeps to: the state stays well formed; what remains
/// shrinks by what the totals of the asked-for side grow; the fee growth
/// moves by exactly what is counted as accrued; a tick that was crossed
/// has a record; and an iteration after which the swap goes on has moved
/// the current tick toward the end of the curve.
pub open spec fn spec_iteration_is_sound(
    it: SwapIteration,
    state: SwapState,
    env: SwapEnv,
    registry: TickRegistry,
) -> bool {
    &&& spec_state_wf(it.state, env)
    &&& it.state.remaining <= state.remaining
    &&& env.exact_in ==> it.state.amount_in + it.state.remaining == state.amount_in
        + state.remaining
    &&& !env.exact_in ==> it.state.amount_out + it.state.remaining == state.amount_out
        + state.remaining
    &&& it.state.amount_in >= state.amount_in
    &&& it.state.amount_out >= state.amount_out
    &&& 0 <= it.state.fee_amount - state.fee_amount <= it.state.amount_in - state.amount_in
    &&& env.a_to_b ==> it.state.sqrt_price <= state.sqrt_price
    &&& !env.a_to_b ==> it.state.sqrt_price >= state.sqrt_price
    &&& it.state.growth_accrued >= state.growth_accrued
    &&& it.state.fee_growth == spec_wrapping_add(
        state.fee_growth,
        (it.state.growth_accrued - state.growth_accrued) as u128,
    )
    &&& it.crossed is Some ==> registry.spec_tick_at(it.crossed.unwrap().tick_index as int)
        is Some
    &&& !it.done ==> 0 <= spec_swap_measure(it.state.tick as int, env.a_to_b)
        < spec_swap_measure(state.tick as int, env.a_to_b)
}

/// Books a step into the state of a swap.
fn book_step(state: &SwapState, step: &SwapStep, env: &SwapEnv) -> (r: Result<SwapState, PoolError>)
    ensures
        r == spec_book_step(*state, *step, *env),
{
    let protocol: u64 = match calculate_protocol_fee(step.fee_amount, env.protocol_fee_rate) {
        Ok(v) => v,
        Err(e) => { return Err(e); },
    };
    proof {
        lemma_protocol_fee_bounded(step.fee_amount, env.protocol_fee_rate);
        lemma_fee_growth_delta_bounded((step.fee_amount - protocol) as u64, state.liquidity);
    }
    let delta: u128 = fee_growth_delta(step.fee_amount - protocol, state.liquidity);
    let used: u128 = if env.exact_in {
        step.amount_in as u128 + step.fee_amount as u128
    } else {
        step.amount_out as u128
    };
    if used > state.remaining as u128 {
        return Err(PoolError::LiquidityOverflow);
    }
    let total_in: u128 = state.amount_in as u128 + step.amount_in as u128 + step.fee_amount as u128;
    let total_out: u128 = state.amount_out as u128 + step.amount_out as u128;
    let total_fee: u128 = state.fee_amount as u128 + step.fee_amount as u128;
    let total_protocol: u128 = state.protocol_fee as u128 + protocol as u128;
    if total_in > 0xffff_ffff_ffff_ffffu128 || total_out > 0xffff_ffff_ffff_ffffu128 || total_fee
        > 0xffff_ffff_ffff_ffffu128 || total_protocol > 0xffff_ffff_ffff_ffffu128 {
        return Err(PoolError::LiquidityOverflow);
    }
    let accrued: u128 = match state.growth_accrued.checked_add(delta) {
        Some(v) => v,
        None => { return Err(PoolError::LiquidityOverflow); },
    };
    Ok(
        SwapState {
            sqrt_price: step.next_price,
            tick: state.tick,
            liquidity: state.liquidity,
            remaining: (state.remaining as u128 - used) as u64,
            amount_in: total_in as u64,
            amount_out: total_out as u64,
            fee_amount: total_fee as u64,
            protocol_fee: total_protocol as u64,
            fee_growth: wrapping_add(state.fee_growth, delta),
            growth_accrued: accrued,
        },
    )
}

/// Computes the price a step aims at, and the price of the next
/// initialized tick if there is one.
fn step_target(next: Option<i32>, env: &SwapEnv) -> (r: (u128, Option<u128>))
    requires
        next is Some ==> spec_tick_in_bounds(next.unwrap() as int),
    ensures
        r.0 == spec_step_target(
            match next {
                Some(t) => Some(t as int),
                None => None,
            },
            *env,
        ),
        next is Some ==> r.1 == Some(spec_sqrt_price_at_tick(next.unwrap() as int) as u128)
            && spec_sqrt_price_at_tick(next.unwrap() as int) == r.1.unwrap(),
        next is None ==> r.1 is None,
{
    match next {
        None => (env.sqrt_price_limit, None),
        Some(t) => {
            proof {
                lemma_sqrt_price_bounds(t as int);
            }
            let p: u128 = sqrt_price_near_tick(t);
            let target: u128 = if env.a_to_b {
                if p >= env.sqrt_price_limit {
                    p
                } else {
                    env.sqrt_price_limit
                }
            } else {
                if p <= env.sqrt_price_limit {
                    p
                } else {
                    env.sqrt_price_limit
                }
            };
            (target, Some(p))
        },
    }
}

/// What holds of a step once it is booked: the price has moved toward
/// the limit and not past it, and the totals have grown by what the step
/// took and paid.
pub open spec fn spec_booked_is_sound(booked: SwapState, state: SwapState, env: SwapEnv) -> bool {
    &&& spec_pool_price_valid(booked.sqrt_price as int)
    &&& spec_limit_in_bounds(env.sqrt_price_limit)
    &&& env.a_to_b ==> env.sqrt_price_limit <= booked.sqrt_price <= state.sqrt_price
    &&& !env.a_to_b ==> state.sqrt_price <= booked.sqrt_price <= env.sqrt_price_limit
    &&& booked.tick == state.tick
    &&& booked.liquidity == state.liquidity
    &&& booked.remaining <= state.remaining
    &&& env.exact_in ==> booked.amount_in + booked.remaining == state.amount_in
        + state.remaining
    &&& !env.exact_in ==> booked.amount_out + booked.remaining == state.amount_out
        + state.remaining
    &&& booked.amount_in >= state.amount_in
    &&& booked.amount_out >= state.amount_out
    &&& 0 <= booked.fee_amount - state.fee_amount <= booked.amount_in - state.amount_in
    &&& booked.growth_accrued >= state.growth_accrued
    &&& booked.fee_growth == spec_wrapping_add(
        state.fee_growth,
        (booked.growth_accrued - state.growth_accrued) as u128,
    )
}

/// Crosses the initialized tick that the price has arrived on.
fn cross_reached_tick(
    state: &SwapState,
    booked: &SwapState,
    tick_index: i32,
    env: &SwapEnv,
    registry: &TickRegistry,
) -> (r: Result<SwapIteration, PoolError>)
    requires
        registry.spec_wf(),
        spec_booked_is_sound(*booked, *state, *env),
        spec_tick_in_bounds(tick_index as int),
        registry.spec_tick_at(tick_index as int) is Some,
        booked.sqrt_price == spec_sqrt_price_at_tick(tick_index as int),
        env.a_to_b ==> tick_index <= state.tick,
        !env.a_to_b ==> tick_index > state.tick,
        state.tick <= MAX_TICK_INDEX,
    ensures
        r == spec_cross_reached_tick(
            *booked,
            tick_index as int,
            registry.spec_tick_at(tick_index as int).unwrap(),
            *env,
        ),
        r is Ok ==> spec_iteration_is_sound(r.unwrap(), *state, *env, *registry),
{
    let record: Tick = match registry.get_tick(tick_index) {
        Ok(rec) => rec,
        Err(e) => { return Err(e); },
    };
    let liquidity: u128 = match liquidity_after_cross(
        booked.liquidity,
        record.liquidity_net,
        env.a_to_b,
    ) {
        Ok(l) => l,
        Err(e) => { return Err(e); },
    };
    let crossed_record: Tick = if env.a_to_b {
        cross_tick(&record, booked.fee_growth, env.fee_growth_other, &env.reward_growths)
    } else {
        cross_tick(&record, env.fee_growth_other, booked.fee_growth, &env.reward_growths)
    };
    let new_tick: i32 = if env.a_to_b {
        tick_index - 1
    } else {
        tick_index
    };
    proof {
        lemma_sqrt_price_step_never_falls(tick_index as int - 1);
        lemma_sqrt_price_step_never_falls(tick_index as int);
    }
    let mut moved = *booked;
    moved.liquidity = liquidity;
    moved.tick = new_tick;
    Ok(
        SwapIteration {
            state: moved,
            crossed: Some(CrossedTick { tick_index, record: crossed_record }),
            done: booked.remaining == 0 || booked.sqrt_price == env.sqrt_price_limit,
        },
    )
}

/// Ends the swap where the price has stopped between two initialized
/// ticks.
fn stop_between_ticks(state: &SwapState, booked: &SwapState, env: &SwapEnv, registry: &TickRegistry) -> (r:
    Result<SwapIteration, PoolError>)
    requires
        spec_state_wf(*state, *env),
        spec_booked_is_sound(*booked, *state, *env),
    ensures
        r == spec_stop_between_ticks(state.sqrt_price, *booked),
        r is Ok ==> spec_iteration_is_sound(r.unwrap(), *state, *env, *registry),
{
    if booked.sqrt_price == state.sqrt_price {
        return Ok(SwapIteration { state: *booked, crossed: None, done: true });
    }
    match sqrt_price_to_tick(booked.sqrt_price) {
        Ok(t) => {
            proof {
                lemma_sqrt_price_step_never_falls(t as int);
            }
            let mut moved = *booked;
            moved.tick = t;
            Ok(SwapIteration { state: moved, crossed: None, done: true })
        },
        Err(_) => Err(PoolError::SqrtPriceOutOfBounds),
    }
}

/// Takes one step toward the next initialized tick or the limit and books
/// it.
fn step_and_book(state: &SwapState, env: &SwapEnv, next: Option<i32>) -> (r: Result<
    (SwapState, Option<u128>),
    PoolError,
>)
    requires
        spec_state_wf(*state, *env),
        next is Some ==> spec_tick_in_bounds(next.unwrap() as int),
    ensures
        match spec_swap_step(
            state.sqrt_price,
            spec_step_target(
                match next {
                    Some(t) => Some(t as int),
                    None => None,
                },
                *env,
            ),
            state.liquidity,
            state.remaining,
            env.fee_rate,
            env.exact_in,
            env.a_to_b,
        ) {
            Err(e) => r == Err::<(SwapState, Option<u128>), PoolError>(e),
            Ok(step) => match spec_book_step(*state, step, *env) {
                Err(e) => r == Err::<(SwapState, Option<u128>), PoolError>(e),
                Ok(booked) => r is Ok && r.unwrap().0 == booked && spec_booked_is_sound(
                    booked,
                    *state,
                    *env,
                ),
            },
        },
        r is Ok && next is Some ==> r.unwrap().1 == Some(
            spec_sqrt_price_at_tick(next.unwrap() as int) as u128,
        ) && spec_sqrt_price_at_tick(next.unwrap() as int) == r.unwrap().1.unwrap(),
        r is Ok && next is None ==> r.unwrap().1 is None,
{
    let (target, tick_price) = step_target(next, env);
    let step = match compute_swap_step(
        state.sqrt_price,
        target,
        state.liquidity,
        state.remaining,
        env.fee_rate,
        env.exact_in,
        env.a_to_b,
    ) {
        Ok(s) => s,
        Err(e) => { return Err(e); },
    };
    let booked = match book_step(state, &step, env) {
        Ok(b) => b,
        Err(e) => { return Err(e); },
    };
    proof {
        lemma_wrapping_laws(state.fee_growth, 0);
    }
    Ok((booked, tick_price))
}

/// Runs one iteration of a swap. Nothing is changed: the tick that was
/// crossed, if any, comes back with its new record.
pub fn swap_iteration(state: &SwapState, env: &SwapEnv, registry: &TickRegistry) -> (r: Result<
    SwapIteration,
    PoolError,
>)
    requires
        registry.spec_wf(),
        spec_state_wf(*state, *env),
    ensures
        r == spec_swap_iteration(*state, *env, *registry),
        r is Ok ==> spec_iteration_is_sound(r.unwrap(), *state, *env, *registry),
{
    reveal(spec_swap_iteration);
    let next: Option<i32> = registry.next_initialized_tick(state.tick, env.a_to_b);
    let (booked, tick_price) = match step_and_book(state, env, next) {
        Ok(pair) => pair,
        Err(e) => { return Err(e); },
    };
    let reached: Option<i32> = match (next, tick_price) {
        (Some(t), Some(p)) => if booked.sqrt_price == p {
            Some(t)
        } else {
            None
        },
        _ => None,
    };
    match reached {
        Some(t) => cross_reached_tick(state, &booked, t, env, registry),
        None => stop_between_ticks(state, &booked, env, registry),
    }
}

/// The fee-growth accumulator of the input asset of a swap.
pub open spec fn spec_input_growth(pool: Pool, a_to_b: bool) -> u128 {
    if a_to_b {
        pool.fee_growth_global_a
    } else {
        pool.fee_growth_global_b
    }
}

/// The fee-growth accumulator of the output asset of a swap.
pub open spec fn spec_output_growth(pool: Pool, a_to_b: bool) -> u128 {
    if a_to_b {
        pool.fee_growth_global_b
    } else {
        pool.fee_growth_global_a
    }
}

/// What a swap keeps to, whatever it trades: it takes no more input, or
/// pays no more output, than was asked for; the fee-growth accumulator of
/// the output asset stands still, and that of the input asset moves
/// forward by what the swap reports as accrued, never back.
pub open spec fn spec_swap_is_sound(
    before: Pool,
    after: Pool,
    result: SwapResult,
    amount: u64,
    exact_in: bool,
    a_to_b: bool,
) -> bool {
    &&& after.spec_wf()
    &&& exact_in ==> result.amount_in <= amount
    &&& !exact_in ==> result.amount_out <= amount
    &&& result.fee_amount <= result.amount_in
    &&& result.a_to_b == a_to_b
    &&& result.sqrt_price == after.sqrt_price
    &&& result.tick_index == after.tick_current_index
    &&& a_to_b ==> after.sqrt_price <= before.sqrt_price
    &&& !a_to_b ==> after.sqrt_price >= before.sqrt_price
    &&& spec_output_growth(after, a_to_b) == spec_output_growth(before, a_to_b)
    &&& spec_input_growth(after, a_to_b) == spec_wrapping_add(
        spec_input_growth(before, a_to_b),
        result.fee_growth_accrued,
    )
    &&& spec_wrapping_sub(spec_input_growth(after, a_to_b), spec_input_growth(before, a_to_b))
        == result.fee_growth_accrued
}

/// Fee growth never runs backward: where the accumulator of the input
/// asset did not wrap around during a swap, it is not below what it was.
pub proof fn lemma_fee_growth_never_falls(before: u128, accrued: u128)
    ensures
        spec_wrapping_sub(spec_wrapping_add(before, accrued), before) == accrued,
        before + accrued <= u128::MAX ==> spec_wrapping_add(before, accrued) >= before,
{
    lemma_wrapping_laws(before, accrued);
}

/// Accrued growth adds up: growth by `a` and then by `b` is growth by
/// `a + b`.
pub proof fn lemma_fee_growth_adds_up(before: u128, a: u128, b: u128)
    requires
        a + b <= u128::MAX,
    ensures
        spec_wrapping_add(spec_wrapping_add(before, a), b) == spec_wrapping_add(
            before,
            (a + b) as u128,
        ),
{
}

/// Executes a swap against a pool.
///
/// `amount` is the input to spend when `amount_specified_is_input` is
/// set, and the output to obtain when it is not. With `a_to_b` asset A
/// comes in and the price falls; otherwise asset B comes in and the price
/// rises. The price never passes `sqrt_price_limit`; a swap that reaches
/// it trades less than was asked for. Either the whole computed trade is
/// applied, or, on any failure, pool and registry are left as they were.
pub fn swap(
    pool: &mut Pool,
    registry: &mut TickRegistry,
    amount: u64,
    sqrt_price_limit: u128,
    amount_specified_is_input: bool,
    a_to_b: bool,
    timestamp: u64,
) -> (r: Result<SwapResult, PoolError>)
    requires
        old(pool).spec_wf(),
        old(registry).spec_wf(),
    ensures
        final(registry).spec_wf(),
        final(registry).spec_same_layout(old(registry)),
        match spec_swap(
            *old(pool),
            *old(registry),
            amount,
            sqrt_price_limit,
            amount_specified_is_input,
            a_to_b,
            timestamp,
        ) {
            Ok(plan) => r == Ok::<SwapResult, PoolError>(plan.result) && *final(pool) == plan.pool
                && (forall|u: int| #[trigger]
                final(registry).spec_tick_at(u) == spec_tick_after(
                    *old(registry),
                    plan.crossed,
                    u,
                )),
            Err(e) => r == Err::<SwapResult, PoolError>(e) && *final(pool) == *old(pool)
                && *final(registry) == *old(registry),
        },
        r is Ok ==> spec_swap_is_sound(
            *old(pool),
            *final(pool),
            r.unwrap(),
            amount,
            amount_specified_is_input,
            a_to_b,
        ),
{
    let exact_in: bool = amount_specified_is_input;
    if amount == 0 {
        return Err(PoolError::ZeroTradableAmount);
    }
    if sqrt_price_limit < MIN_SQRT_PRICE || sqrt_price_limit > MAX_SQRT_PRICE {
        return Err(PoolError::SqrtPriceOutOfBounds);
    }
    if (a_to_b && sqrt_price_limit >= pool.sqrt_price) || (!a_to_b && sqrt_price_limit
        <= pool.sqrt_price) {
        return Err(PoolError::InvalidSqrtPriceLimitDirection);
    }
    let rewards = match next_reward_infos(&pool.reward_infos, pool.liquidity, timestamp) {
        Ok(v) => v,
        Err(e) => { return Err(e); },
    };
    let growths = [
        rewards[0].growth_global_x64,
        rewards[1].growth_global_x64,
        rewards[2].growth_global_x64,
    ];
    assert(growths =~= spec_growths_of(rewards));
    let env = SwapEnv {
        sqrt_price_limit,
        fee_rate: pool.fee_rate,
        protocol_fee_rate: pool.protocol_fee_rate,
        exact_in,
        a_to_b,
        fee_growth_other: if a_to_b {
            pool.fee_growth_global_b
        } else {
            pool.fee_growth_global_a
        },
        reward_growths: growths,
    };
    let start = SwapState {
        sqrt_price: pool.sqrt_price,
        tick: pool.tick_current_index,
        liquidity: pool.liquidity,
        remaining: amount,
        amount_in: 0,
        amount_out: 0,
        fee_amount: 0,
        protocol_fee: 0,
        fee_growth: if a_to_b {
            pool.fee_growth_global_a
        } else {
            pool.fee_growth_global_b
        },
        growth_accrued: 0,
    };
    let ghost reg0 = *registry;
    let mut state = start;
    let mut crossed: Vec<CrossedTick> = Vec::new();
    let mut done: bool = false;
    proof {
        lemma_wrapping_laws(start.fee_growth, 0);
    }
    let ghost pool0 = *pool;
    let ghost wanted = spec_swap(
        pool0,
        reg0,
        amount,
        sqrt_price_limit,
        exact_in,
        a_to_b,
        timestamp,
    );
    assert(env == spec_swap_env(pool0, spec_growths_of(rewards), sqrt_price_limit, exact_in, a_to_b));
    assert(start == spec_swap_start(pool0, amount, a_to_b));
    assert(wanted == spec_swap_finish(
        pool0,
        rewards,
        spec_swap_run(start, Seq::empty(), env, reg0),
        a_to_b,
    ));
    while !done
        invariant
            *registry == reg0,
            *pool == pool0,
            pool0 == *old(pool),
            reg0 == *old(registry),
            wanted == spec_swap(
                pool0,
                reg0,
                amount,
                sqrt_price_limit,
                exact_in,
                a_to_b,
                timestamp,
            ),
            wanted == spec_swap_finish(
                pool0,
                rewards,
                spec_swap_run(start, Seq::empty(), env, reg0),
                a_to_b,
            ),
            reg0.spec_wf(),
            spec_state_wf(state, env),
            !done ==> spec_swap_run(start, Seq::empty(), env, reg0) == spec_swap_run(
                state,
                crossed@,
                env,
                reg0,
            ),
            done ==> spec_swap_run(start, Seq::empty(), env, reg0) == Ok::<
                (SwapState, Seq<CrossedTick>),
                PoolError,
            >((state, crossed@)),
            forall|j: int|
                0 <= j < crossed@.len() ==> reg0.spec_tick_at(
                    (#[trigger] crossed@[j]).tick_index as int,
                ) is Some,
            exact_in ==> state.amount_in + state.remaining == amount,
            !exact_in ==> state.amount_out + state.remaining == amount,
            state.fee_amount <= state.amount_in,
            state.fee_growth == spec_wrapping_add(start.fee_growth, state.growth_accrued),
            env.exact_in == exact_in,
            exact_in == amount_specified_is_input,
            env.a_to_b == a_to_b,
            a_to_b ==> state.sqrt_price <= start.sqrt_price,
            !a_to_b ==> state.sqrt_price >= start.sqrt_price,
            !done ==> 0 <= spec_swap_measure(state.tick as int, a_to_b),
        decreases
            (if done {
                0int
            } else {
                1 + spec_swap_measure(state.tick as int, a_to_b)
            }),
    {
        proof {
            lemma_swap_run_unfolds(state, crossed@, env, reg0);
        }
        let it = match swap_iteration(&state, &env, registry) {
            Ok(it) => it,
            Err(e) => {
                return Err(e);
            },
        };
        proof {
            lemma_fee_growth_adds_up(
                start.fee_growth,
                state.growth_accrued,
                (it.state.growth_accrued - state.growth_accrued) as u128,
            );
        }
        match it.crossed {
            Some(c) => {
                crossed.push(c);
            },
            None => {},
        }
        state = it.state;
        done = it.done;
    }
    let owed: u64 = if a_to_b {
        pool.protocol_fee_owed_a
    } else {
        pool.protocol_fee_owed_b
    };
    if state.amount_in == 0 && state.amount_out == 0 {
        return Err(PoolError::ZeroTradableAmount);
    }
    let new_owed: u64 = match owed.checked_add(state.protocol_fee) {
        Some(v) => v,
        None => { return Err(PoolError::LiquidityOverflow); },
    };
    // nothing can fail from here on: write the crossed ticks, then the pool
    let mut i: usize = 0;
    while i < crossed.len()
        invariant
            0 <= i <= crossed@.len(),
            reg0.spec_wf(),
            registry.spec_wf(),
            registry.spec_same_layout(&reg0),
            forall|u: int| #[trigger]
                registry.spec_tick_at(u) == spec_tick_after(reg0, crossed@.take(i as int), u),
            forall|j: int|
                0 <= j < crossed@.len() ==> reg0.spec_tick_at(
                    (#[trigger] crossed@[j]).tick_index as int,
                ) is Some,
        decreases crossed@.len() - i,
    {
        let c: CrossedTick = crossed[i];
        let ghost before = *registry;
        proof {
            assert(reg0.spec_tick_at(crossed@[i as int].tick_index as int) is Some);
            reg0.lemma_same_layout_same_places(&before, c.tick_index as int);
        }
        match registry.set_tick(c.tick_index, c.record) {
            Ok(_) => {},
            Err(_) => {
                assert(false);
            },
        }
        proof {
            let done_before = crossed@.take(i as int);
            let done_after = crossed@.take(i as int + 1);
            assert(done_after.last() == c);
            assert(done_after.drop_last() =~= done_before);
            assert forall|j: int| 0 <= j < registry.arrays@.len() implies (
            #[trigger] registry.arrays@[j]).start_tick_index == reg0.arrays@[j].start_tick_index by {
                assert(before.arrays@[j].start_tick_index == reg0.arrays@[j].start_tick_index);
            }
            assert forall|u: int| #[trigger]
                registry.spec_tick_at(u) == spec_tick_after(reg0, done_after, u) by {
                assert(before.spec_tick_at(u) == spec_tick_after(reg0, done_before, u));
            }
        }
        i = i + 1;
    }
    proof {
        assert(crossed@.take(crossed@.len() as int) =~= crossed@);
        lemma_fee_growth_never_falls(start.fee_growth, state.growth_accrued);
    }
    pool.tick_current_index = state.tick;
    pool.sqrt_price = state.sqrt_price;
    pool.liquidity = state.liquidity;
    pool.reward_infos = rewards;
    if a_to_b {
        pool.fee_growth_global_a = state.fee_growth;
        pool.protocol_fee_owed_a = new_owed;
    } else {
        pool.fee_growth_global_b = state.fee_growth;
        pool.protocol_fee_owed_b = new_owed;
    }
    Ok(
        SwapResult {
            amount_in: state.amount_in,
            amount_out: state.amount_out,
            fee_amount: state.fee_amount,
            protocol_fee: state.protocol_fee,
            a_to_b,
            sqrt_price: state.sqrt_price,
            tick_index: state.tick,
            fee_growth_accrued: state.growth_accrued,
        },
    )
}

} // verus!
