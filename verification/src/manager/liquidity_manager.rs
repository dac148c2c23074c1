use vstd::prelude::*;
use crate::constants::NUM_REWARDS;
use crate::errors::PoolError;
use crate::manager::position_manager::{
    lemma_settled_owes_nothing_new, settle_position, spec_settle_position,
};
use crate::manager::reward_manager::{
    next_reward_infos, spec_next_reward_info, spec_next_reward_infos,
};
use crate::math::growth_math::lemma_wrapping_laws;
use crate::manager::tick_manager::{
    growth_inside, reward_growths_inside, spec_growth_inside, spec_reward_growths_inside,
    spec_update_tick, update_tick,
};
use crate::manager::tick_registry::TickRegistry;
use crate::math::liquidity_math::add_delta;
use crate::math::price_math::{
    spec_sqrt_price_at_tick, tick_to_sqrt_price,
};
use crate::math::sqrt_price_math::{
    get_amount_delta_a, get_amount_delta_b, lemma_rounded_down_fits, spec_amount_delta_a,
    spec_amount_delta_b,
};
use crate::math::tick_math::spec_tick_in_bounds;
use crate::state::pool::{Pool, RewardInfo};
use crate::state::position::Position;
use crate::state::tick::Tick;
use crate::state::LockType;

verus! {

/// What a change of liquidity moves: the two token amounts, owed to the
/// pool on a deposit and by the pool on a withdrawal, and the liquidity of
/// the position before and after.
#[derive(Clone, Copy, Debug, PartialEq, Eq)]
pub struct LiquidityChange {
    pub amount_a: u64,
    pub amount_b: u64,
    pub liquidity_before: u128,
    pub liquidity_after: u128,
}

/// Everything a change of liquidity writes.
#[derive(Clone, Copy, Debug, PartialEq, Eq)]
pub struct ModifyOutcome {
    pub pool: Pool,
    pub position: Position,
    pub tick_lower: Tick,
    pub tick_upper: Tick,
    pub change: LiquidityChange,
}

/// The size of a signed change.
pub open spec fn spec_magnitude(delta: i128) -> u128 {
    if delta < 0 {
        (-delta) as u128
    } else {
        delta as u128
    }
}

/// The record of a boundary tick as growth inside a range reads it: a
/// tick not yet in use counts as if it had just come into use, with the
/// running totals outside when the price stands at or above it and zero
/// otherwise.
pub open spec fn spec_effective_tick(
    tick: Tick,
    tick_index: int,
    tick_current: int,
    fee_growth_global_a: u128,
    fee_growth_global_b: u128,
    reward_growths_global: [u128; 3],
) -> Tick {
    if tick.initialized {
        tick
    } else if tick_current >= tick_index {
        Tick {
            initialized: false,
            liquidity_net: 0,
            liquidity_gross: 0,
            fee_growth_outside_a: fee_growth_global_a,
            fee_growth_outside_b: fee_growth_global_b,
            reward_growths_outside: reward_growths_global,
        }
    } else {
        Tick::spec_empty()
    }
}

/// The token amounts that a change of `liquidity` over a range moves, by
/// where the price stands: below the range only asset A, above it only
/// asset B, inside it asset A up to the upper bound and asset B down to
/// the lower bound.
pub open spec fn spec_token_amounts(
    sqrt_price: u128,
    tick_current: int,
    tick_lower: int,
    tick_upper: int,
    liquidity: u128,
    round_up: bool,
) -> Result<(u64, u64), PoolError> {
    if !spec_tick_in_bounds(tick_lower) || !spec_tick_in_bounds(tick_upper) {
        Err(PoolError::InvalidTickIndex)
    } else {
        let lower = spec_sqrt_price_at_tick(tick_lower) as u128;
        let upper = spec_sqrt_price_at_tick(tick_upper) as u128;
        if tick_current < tick_lower {
            match spec_amount_delta_a(lower, upper, liquidity, round_up) {
                Err(e) => Err(e),
                Ok(a) => Ok((a, 0u64)),
            }
        } else if tick_current >= tick_upper {
            match spec_amount_delta_b(lower, upper, liquidity, round_up) {
                Err(e) => Err(e),
                Ok(b) => Ok((0u64, b)),
            }
        } else {
            match spec_amount_delta_a(sqrt_price, upper, liquidity, round_up) {
                Err(e) => Err(e),
                Ok(a) => match spec_amount_delta_b(lower, sqrt_price, liquidity, round_up) {
                    Err(e) => Err(e),
                    Ok(b) => Ok((a, b)),
                },
            }
        }
    }
}

/// The growth accumulators of three reward streams.
pub open spec fn spec_growths_of(infos: [RewardInfo; 3]) -> [u128; 3] {
    [infos[0].growth_global_x64, infos[1].growth_global_x64, infos[2].growth_global_x64]
}

/// What a change of the liquidity of a position by `delta` writes; `delta`
/// may be zero, and then only fees and rewards are settled.
///
/// The two boundary ticks must have records. Then, in turn: the reward
/// streams are brought up to `timestamp`; growth
/// inside the range is taken from the two boundary ticks; the position is
/// settled against it; the change is applied to the position, to the two
/// ticks, and, where the price stands inside the range, to the active
/// liquidity of the pool; the token amounts are computed, rounded up on a
/// deposit and down on a withdrawal.
pub open spec fn spec_apply_liquidity(
    pool: Pool,
    position: Position,
    lower: Option<Tick>,
    upper: Option<Tick>,
    delta: i128,
    timestamp: u64,
) -> Result<ModifyOutcome, PoolError> {
    let li = position.tick_lower_index as int;
    let ui = position.tick_upper_index as int;
    let cur = pool.tick_current_index as int;
    let ga = pool.fee_growth_global_a;
    let gb = pool.fee_growth_global_b;
    if lower is None || upper is None {
        Err(PoolError::TickArrayIndexOutOfBounds)
    } else {
        match spec_next_reward_infos(pool.reward_infos, pool.liquidity, timestamp) {
            Err(e) => Err(e),
            Ok(rewards) => {
                let growths = spec_growths_of(rewards);
                {
                let lo = lower.unwrap();
                let up = upper.unwrap();
                let lo_eff = spec_effective_tick(lo, li, cur, ga, gb, growths);
                let up_eff = spec_effective_tick(up, ui, cur, ga, gb, growths);
                let fa = spec_growth_inside(
                    lo_eff.fee_growth_outside_a,
                    up_eff.fee_growth_outside_a,
                    li,
                    ui,
                    cur,
                    ga,
                );
                let fb = spec_growth_inside(
                    lo_eff.fee_growth_outside_b,
                    up_eff.fee_growth_outside_b,
                    li,
                    ui,
                    cur,
                    gb,
                );
                let rg = spec_reward_growths_inside(lo_eff, up_eff, li, ui, cur, growths);
                match spec_settle_position(position, fa, fb, rg) {
                    Err(e) => Err(e),
                    Ok(settled) => {
                        if !(0 <= settled.liquidity + delta <= u128::MAX) {
                            Err(PoolError::LiquidityOverflow)
                        } else {
                            match spec_update_tick(lo, li, cur, ga, gb, growths, delta, false) {
                                Err(e) => Err(e),
                                Ok(lo2) => match spec_update_tick(
                                    up,
                                    ui,
                                    cur,
                                    ga,
                                    gb,
                                    growths,
                                    delta,
                                    true,
                                ) {
                                    Err(e) => Err(e),
                                    Ok(up2) => {
                                        let in_range = position.spec_in_range(cur);
                                        if in_range && !(0 <= pool.liquidity + delta
                                            <= u128::MAX) {
                                            Err(PoolError::LiquidityOverflow)
                                        } else {
                                            match spec_token_amounts(
                                                pool.sqrt_price,
                                                cur,
                                                li,
                                                ui,
                                                spec_magnitude(delta),
                                                delta > 0,
                                            ) {
                                                Err(e) => Err(e),
                                                Ok(amounts) => Ok(
                                                    ModifyOutcome {
                                                        pool: Pool {
                                                            liquidity: if in_range {
                                                                (pool.liquidity + delta) as u128
                                                            } else {
                                                                pool.liquidity
                                                            },
                                                            reward_infos: rewards,
                                                            ..pool
                                                        },
                                                        position: Position {
                                                            liquidity: (settled.liquidity
                                                                + delta) as u128,
                                                            ..settled
                                                        },
                                                        tick_lower: lo2,
                                                        tick_upper: up2,
                                                        change: LiquidityChange {
                                                            amount_a: amounts.0,
                                                            amount_b: amounts.1,
                                                            liquidity_before: position.liquidity,
                                                            liquidity_after: (settled.liquidity
                                                                + delta) as u128,
                                                        },
                                                    },
                                                ),
                                            }
                                        }
                                    },
                                },
                            }
                        }
                    },
                }
            }
        },
    }
    }
}

/// A change of liquidity leaves a well-formed pool well formed and keeps
/// the range of the position: it writes the liquidity and the reward
/// streams of the pool, and the liquidity, owed balances and checkpoints
/// of the position, and nothing else.
pub proof fn lemma_apply_liquidity_keeps_form(
    pool: Pool,
    position: Position,
    lower: Option<Tick>,
    upper: Option<Tick>,
    delta: i128,
    timestamp: u64,
)
    requires
        spec_apply_liquidity(pool, position, lower, upper, delta, timestamp) is Ok,
    ensures
        ({
            let o = spec_apply_liquidity(pool, position, lower, upper, delta, timestamp).unwrap();
            &&& pool.spec_wf() ==> o.pool.spec_wf()
            &&& o.pool == (Pool { liquidity: o.pool.liquidity, reward_infos: o.pool.reward_infos, ..pool })
            &&& o.position.tick_lower_index == position.tick_lower_index
            &&& o.position.tick_upper_index == position.tick_upper_index
            &&& o.position.pool == position.pool
            &&& o.position.position_mint == position.position_mint
            &&& o.position.lock_type == position.lock_type
            &&& o.position.liquidity == position.liquidity + delta
            &&& o.pool.liquidity == if position.spec_in_range(pool.tick_current_index as int) {
                pool.liquidity + delta
            } else {
                pool.liquidity as int
            }
            &&& o.change.liquidity_before == position.liquidity
            &&& o.change.liquidity_after == o.position.liquidity
        }),
{
}

/// What `modify_liquidity` writes: a change of zero is refused, and so is
/// a withdrawal from a locked position; else as `spec_apply_liquidity`.
pub open spec fn spec_modify_liquidity(
    pool: Pool,
    position: Position,
    lower: Option<Tick>,
    upper: Option<Tick>,
    delta: i128,
    timestamp: u64,
) -> Result<ModifyOutcome, PoolError> {
    if delta == 0 {
        Err(PoolError::LiquidityZero)
    } else if delta < 0 && position.lock_type != LockType::Unlocked {
        Err(PoolError::PositionAlreadyLocked)
    } else {
        spec_apply_liquidity(pool, position, lower, upper, delta, timestamp)
    }
}

/// The size of a signed change.
pub fn magnitude(delta: i128) -> (r: u128)
    ensures
        r == spec_magnitude(delta),
{
    if delta < 0 {
        ((-(delta + 1)) as u128) + 1
    } else {
        delta as u128
    }
}

/// The record of a boundary tick as growth inside a range reads it.
pub fn effective_tick(
    tick: &Tick,
    tick_index: i32,
    tick_current: i32,
    fee_growth_global_a: u128,
    fee_growth_global_b: u128,
    reward_growths_global: &[u128; NUM_REWARDS],
) -> (r: Tick)
    ensures
        r == spec_effective_tick(
            *tick,
            tick_index as int,
            tick_current as int,
            fee_growth_global_a,
            fee_growth_global_b,
            *reward_growths_global,
        ),
{
    if tick.initialized {
        *tick
    } else if tick_current >= tick_index {
        Tick {
            initialized: false,
            liquidity_net: 0,
            liquidity_gross: 0,
            fee_growth_outside_a: fee_growth_global_a,
            fee_growth_outside_b: fee_growth_global_b,
            reward_growths_outside: *reward_growths_global,
        }
    } else {
        Tick::new()
    }
}

/// Computes the token amounts that a change of `liquidity` over a range
/// moves.
pub fn token_amounts(
    sqrt_price: u128,
    tick_current: i32,
    tick_lower: i32,
    tick_upper: i32,
    liquidity: u128,
    round_up: bool,
) -> (r: Result<(u64, u64), PoolError>)
    ensures
        r == spec_token_amounts(
            sqrt_price,
            tick_current as int,
            tick_lower as int,
            tick_upper as int,
            liquidity,
            round_up,
        ),
{
    let lower: u128 = match tick_to_sqrt_price(tick_lower) {
        Ok(p) => p,
        Err(e) => { return Err(e); },
    };
    let upper: u128 = match tick_to_sqrt_price(tick_upper) {
        Ok(p) => p,
        Err(e) => { return Err(e); },
    };
    if tick_current < tick_lower {
        match get_amount_delta_a(lower, upper, liquidity, round_up) {
            Ok(a) => Ok((a, 0)),
            Err(e) => Err(e),
        }
    } else if tick_current >= tick_upper {
        match get_amount_delta_b(lower, upper, liquidity, round_up) {
            Ok(b) => Ok((0, b)),
            Err(e) => Err(e),
        }
    } else {
        let a: u64 = match get_amount_delta_a(sqrt_price, upper, liquidity, round_up) {
            Ok(a) => a,
            Err(e) => { return Err(e); },
        };
        match get_amount_delta_b(lower, sqrt_price, liquidity, round_up) {
            Ok(b) => Ok((a, b)),
            Err(e) => Err(e),
        }
    }
}

/// Computes what a change of the liquidity of a position writes, from the
/// pool, the position and the records of its two boundary ticks. Nothing
/// is changed.
pub fn compute_liquidity_change(
    pool: &Pool,
    position: &Position,
    lower: &Tick,
    upper: &Tick,
    delta: i128,
    timestamp: u64,
) -> (r: Result<ModifyOutcome, PoolError>)
    ensures
        r == spec_apply_liquidity(
            *pool,
            *position,
            Some(*lower),
            Some(*upper),
            delta,
            timestamp,
        ),
{
    let li: i32 = position.tick_lower_index;
    let ui: i32 = position.tick_upper_index;
    let cur: i32 = pool.tick_current_index;
    let ga: u128 = pool.fee_growth_global_a;
    let gb: u128 = pool.fee_growth_global_b;
    let rewards = match next_reward_infos(&pool.reward_infos, pool.liquidity, timestamp) {
        Ok(v) => v,
        Err(e) => { return Err(e); },
    };
    let growths = [
        rewards[0].growth_global_x64,
        rewards[1].growth_global_x64,
        rewards[2].growth_global_x64,
    ];
    assert(growths =~= spec_growths_of(rewards));
    let lo_eff = effective_tick(lower, li, cur, ga, gb, &growths);
    let up_eff = effective_tick(upper, ui, cur, ga, gb, &growths);
    let fa: u128 = growth_inside(
        lo_eff.fee_growth_outside_a,
        up_eff.fee_growth_outside_a,
        li,
        ui,
        cur,
        ga,
    );
    let fb: u128 = growth_inside(
        lo_eff.fee_growth_outside_b,
        up_eff.fee_growth_outside_b,
        li,
        ui,
        cur,
        gb,
    );
    let rg = reward_growths_inside(&lo_eff, &up_eff, li, ui, cur, &growths);
    let settled = match settle_position(position, fa, fb, &rg) {
        Ok(v) => v,
        Err(e) => { return Err(e); },
    };
    let position_liquidity: u128 = match add_delta(settled.liquidity, delta) {
        Ok(v) => v,
        Err(e) => { return Err(e); },
    };
    let lo2 = match update_tick(lower, li, cur, ga, gb, &growths, delta, false) {
        Ok(v) => v,
        Err(e) => { return Err(e); },
    };
    let up2 = match update_tick(upper, ui, cur, ga, gb, &growths, delta, true) {
        Ok(v) => v,
        Err(e) => { return Err(e); },
    };
    let in_range: bool = li <= cur && cur < ui;
    let pool_liquidity: u128 = if in_range {
        match add_delta(pool.liquidity, delta) {
            Ok(v) => v,
            Err(e) => { return Err(e); },
        }
    } else {
        pool.liquidity
    };
    let amounts = match token_amounts(pool.sqrt_price, cur, li, ui, magnitude(delta), delta > 0) {
        Ok(v) => v,
        Err(e) => { return Err(e); },
    };
    let mut new_pool = *pool;
    new_pool.liquidity = pool_liquidity;
    new_pool.reward_infos = rewards;
    let mut new_position = settled;
    new_position.liquidity = position_liquidity;
    Ok(
        ModifyOutcome {
            pool: new_pool,
            position: new_position,
            tick_lower: lo2,
            tick_upper: up2,
            change: LiquidityChange {
                amount_a: amounts.0,
                amount_b: amounts.1,
                liquidity_before: position.liquidity,
                liquidity_after: position_liquidity,
            },
        },
    )
}

/// What `increase_liquidity` writes: as a change by `amount`, refused
/// where the amount is zero or too high for a signed change, or where a
/// token amount comes out above its limit.
pub open spec fn spec_increase_liquidity(
    pool: Pool,
    position: Position,
    lower: Option<Tick>,
    upper: Option<Tick>,
    amount: u128,
    token_max_a: u64,
    token_max_b: u64,
    timestamp: u64,
) -> Result<ModifyOutcome, PoolError> {
    if amount == 0 {
        Err(PoolError::LiquidityZero)
    } else if amount > i128::MAX {
        Err(PoolError::LiquidityTooHigh)
    } else {
        match spec_apply_liquidity(pool, position, lower, upper, amount as i128, timestamp) {
            Err(e) => Err(e),
            Ok(o) => if o.change.amount_a > token_max_a || o.change.amount_b > token_max_b {
                Err(PoolError::TokenMaxExceeded)
            } else {
                Ok(o)
            },
        }
    }
}

/// What `decrease_liquidity` writes: as a change by `-amount`, refused
/// where the amount is zero or too high for a signed change, where the
/// position is locked, or where a token amount comes out below its limit.
pub open spec fn spec_decrease_liquidity(
    pool: Pool,
    position: Position,
    lower: Option<Tick>,
    upper: Option<Tick>,
    amount: u128,
    token_min_a: u64,
    token_min_b: u64,
    timestamp: u64,
) -> Result<ModifyOutcome, PoolError> {
    if amount == 0 {
        Err(PoolError::LiquidityZero)
    } else if amount > i128::MAX {
        Err(PoolError::LiquidityTooHigh)
    } else if position.lock_type != LockType::Unlocked {
        Err(PoolError::PositionAlreadyLocked)
    } else {
        match spec_apply_liquidity(pool, position, lower, upper, (-(amount as int)) as i128, timestamp) {
            Err(e) => Err(e),
            Ok(o) => if o.change.amount_a < token_min_a || o.change.amount_b < token_min_b {
                Err(PoolError::TokenMinSubceeded)
            } else {
                Ok(o)
            },
        }
    }
}

/// The registry holds an outcome: the two boundary ticks of the position
/// have the records of the outcome, and every other tick the record it
/// had in `before`.
pub open spec fn spec_registry_holds(
    after: &TickRegistry,
    before: &TickRegistry,
    position: Position,
    outcome: ModifyOutcome,
) -> bool {
    forall|u: int| #[trigger]
        after.spec_tick_at(u) == if u == position.tick_upper_index {
            Some(outcome.tick_upper)
        } else if u == position.tick_lower_index {
            Some(outcome.tick_lower)
        } else {
            before.spec_tick_at(u)
        }
}

/// Reads the two boundary ticks of a position and computes what a change
/// of its liquidity writes. Nothing is changed.
pub fn plan_liquidity_change(
    pool: &Pool,
    position: &Position,
    registry: &TickRegistry,
    delta: i128,
    timestamp: u64,
) -> (r: Result<ModifyOutcome, PoolError>)
    requires
        registry.spec_wf(),
    ensures
        r == spec_apply_liquidity(
            *pool,
            *position,
            registry.spec_tick_at(position.tick_lower_index as int),
            registry.spec_tick_at(position.tick_upper_index as int),
            delta,
            timestamp,
        ),
        r is Ok ==> registry.spec_tick_at(position.tick_lower_index as int) is Some
            && registry.spec_tick_at(position.tick_upper_index as int) is Some,
{
    let lower = match registry.get_tick(position.tick_lower_index) {
        Ok(t) => t,
        Err(_) => { return Err(PoolError::TickArrayIndexOutOfBounds); },
    };
    let upper = match registry.get_tick(position.tick_upper_index) {
        Ok(t) => t,
        Err(_) => { return Err(PoolError::TickArrayIndexOutOfBounds); },
    };
    compute_liquidity_change(pool, position, &lower, &upper, delta, timestamp)
}

/// Writes an outcome to the pool, the position and the registry.
fn commit_liquidity_change(
    pool: &mut Pool,
    position: &mut Position,
    registry: &mut TickRegistry,
    outcome: &ModifyOutcome,
)
    requires
        old(registry).spec_wf(),
        old(registry).spec_tick_at(old(position).tick_lower_index as int) is Some,
        old(registry).spec_tick_at(old(position).tick_upper_index as int) is Some,
    ensures
        *final(pool) == outcome.pool,
        *final(position) == outcome.position,
        final(registry).spec_wf(),
        final(registry).spec_same_layout(old(registry)),
        spec_registry_holds(final(registry), old(registry), *old(position), *outcome),
{
    let li: i32 = position.tick_lower_index;
    let ui: i32 = position.tick_upper_index;
    let ghost before = *registry;
    match registry.set_tick(li, outcome.tick_lower) {
        Ok(_) => {},
        Err(_) => {
            assert(false);
        },
    }
    let ghost middle = *registry;
    assert(middle.spec_tick_at(ui as int) is Some);
    match registry.set_tick(ui, outcome.tick_upper) {
        Ok(_) => {},
        Err(_) => {
            assert(false);
        },
    }
    proof {
        assert forall|i: int| 0 <= i < registry.arrays@.len() implies (
        #[trigger] registry.arrays@[i]).start_tick_index == before.arrays@[i].start_tick_index by {
            assert(middle.arrays@[i].start_tick_index == before.arrays@[i].start_tick_index);
        }
        assert forall|u: int| #[trigger]
            registry.spec_tick_at(u) == if u == ui {
                Some(outcome.tick_upper)
            } else if u == li {
                Some(outcome.tick_lower)
            } else {
                before.spec_tick_at(u)
            } by {
            assert(middle.spec_tick_at(u) == if u == li {
                Some(outcome.tick_lower)
            } else {
                before.spec_tick_at(u)
            });
        }
    }
    *pool = outcome.pool;
    *position = outcome.position;
}

/// Changes the liquidity of a position by a signed amount, and settles
/// the fees and rewards it has earned.
///
/// Returns the token amounts that the change moves. A change of zero is
/// refused, and so is a withdrawal from a locked position. On any failure
/// the pool, the position and the registry are left as they were.
pub fn modify_liquidity(
    pool: &mut Pool,
    position: &mut Position,
    registry: &mut TickRegistry,
    liquidity_delta: i128,
    timestamp: u64,
) -> (r: Result<LiquidityChange, PoolError>)
    requires
        old(registry).spec_wf(),
    ensures
        old(pool).spec_wf() ==> final(pool).spec_wf(),
        final(position).tick_lower_index == old(position).tick_lower_index,
        final(position).tick_upper_index == old(position).tick_upper_index,
        final(registry).spec_wf(),
        final(registry).spec_same_layout(old(registry)),
        match spec_modify_liquidity(
            *old(pool),
            *old(position),
            old(registry).spec_tick_at(old(position).tick_lower_index as int),
            old(registry).spec_tick_at(old(position).tick_upper_index as int),
            liquidity_delta,
            timestamp,
        ) {
            Ok(o) => r == Ok::<LiquidityChange, PoolError>(o.change) && *final(pool) == o.pool
                && *final(position) == o.position && spec_registry_holds(
                final(registry),
                old(registry),
                *old(position),
                o,
            ),
            Err(e) => r == Err::<LiquidityChange, PoolError>(e) && *final(pool) == *old(pool)
                && *final(position) == *old(position) && *final(registry) == *old(registry),
        },
{
    if liquidity_delta == 0 {
        return Err(PoolError::LiquidityZero);
    }
    if liquidity_delta < 0 {
        match position.lock_type {
            LockType::Unlocked => {},
            _ => { return Err(PoolError::PositionAlreadyLocked); },
        }
    }
    let outcome = match plan_liquidity_change(pool, position, registry, liquidity_delta, timestamp) {
        Ok(o) => o,
        Err(e) => { return Err(e); },
    };
    commit_liquidity_change(pool, position, registry, &outcome);
    Ok(outcome.change)
}

/// Adds liquidity to a position.
///
/// `token_max_a` and `token_max_b` limit what the deposit may cost; where
/// an amount comes out above its limit the deposit is refused. On any
/// failure the pool, the position and the registry are left as they were.
pub fn increase_liquidity(
    pool: &mut Pool,
    position: &mut Position,
    registry: &mut TickRegistry,
    liquidity_amount: u128,
    token_max_a: u64,
    token_max_b: u64,
    timestamp: u64,
) -> (r: Result<LiquidityChange, PoolError>)
    requires
        old(registry).spec_wf(),
    ensures
        old(pool).spec_wf() ==> final(pool).spec_wf(),
        final(position).tick_lower_index == old(position).tick_lower_index,
        final(position).tick_upper_index == old(position).tick_upper_index,
        final(registry).spec_wf(),
        final(registry).spec_same_layout(old(registry)),
        match spec_increase_liquidity(
            *old(pool),
            *old(position),
            old(registry).spec_tick_at(old(position).tick_lower_index as int),
            old(registry).spec_tick_at(old(position).tick_upper_index as int),
            liquidity_amount,
            token_max_a,
            token_max_b,
            timestamp,
        ) {
            Ok(o) => r == Ok::<LiquidityChange, PoolError>(o.change) && *final(pool) == o.pool
                && *final(position) == o.position && spec_registry_holds(
                final(registry),
                old(registry),
                *old(position),
                o,
            ),
            Err(e) => r == Err::<LiquidityChange, PoolError>(e) && *final(pool) == *old(pool)
                && *final(position) == *old(position) && *final(registry) == *old(registry),
        },
{
    if liquidity_amount == 0 {
        return Err(PoolError::LiquidityZero);
    }
    if liquidity_amount > 0x7fff_ffff_ffff_ffff_ffff_ffff_ffff_ffffu128 {
        return Err(PoolError::LiquidityTooHigh);
    }
    let delta: i128 = liquidity_amount as i128;
    let outcome = match plan_liquidity_change(pool, position, registry, delta, timestamp) {
        Ok(o) => o,
        Err(e) => { return Err(e); },
    };
    if outcome.change.amount_a > token_max_a || outcome.change.amount_b > token_max_b {
        return Err(PoolError::TokenMaxExceeded);
    }
    commit_liquidity_change(pool, position, registry, &outcome);
    Ok(outcome.change)
}

/// Takes liquidity out of a position.
///
/// `token_min_a` and `token_min_b` are the least the withdrawal must
/// yield; where an amount comes out below its limit the withdrawal is
/// refused. A locked position gives nothing back. On any failure the
/// pool, the position and the registry are left as they were.
pub fn decrease_liquidity(
    pool: &mut Pool,
    position: &mut Position,
    registry: &mut TickRegistry,
    liquidity_amount: u128,
    token_min_a: u64,
    token_min_b: u64,
    timestamp: u64,
) -> (r: Result<LiquidityChange, PoolError>)
    requires
        old(registry).spec_wf(),
    ensures
        old(pool).spec_wf() ==> final(pool).spec_wf(),
        final(position).tick_lower_index == old(position).tick_lower_index,
        final(position).tick_upper_index == old(position).tick_upper_index,
        final(registry).spec_wf(),
        final(registry).spec_same_layout(old(registry)),
        match spec_decrease_liquidity(
            *old(pool),
            *old(position),
            old(registry).spec_tick_at(old(position).tick_lower_index as int),
            old(registry).spec_tick_at(old(position).tick_upper_index as int),
            liquidity_amount,
            token_min_a,
            token_min_b,
            timestamp,
        ) {
            Ok(o) => r == Ok::<LiquidityChange, PoolError>(o.change) && *final(pool) == o.pool
                && *final(position) == o.position && spec_registry_holds(
                final(registry),
                old(registry),
                *old(position),
                o,
            ),
            Err(e) => r == Err::<LiquidityChange, PoolError>(e) && *final(pool) == *old(pool)
                && *final(position) == *old(position) && *final(registry) == *old(registry),
        },
{
    if liquidity_amount == 0 {
        return Err(PoolError::LiquidityZero);
    }
    if liquidity_amount > 0x7fff_ffff_ffff_ffff_ffff_ffff_ffff_ffffu128 {
        return Err(PoolError::LiquidityTooHigh);
    }
    match position.lock_type {
        LockType::Unlocked => {},
        _ => { return Err(PoolError::PositionAlreadyLocked); },
    }
    let delta: i128 = -(liquidity_amount as i128);
    let outcome = match plan_liquidity_change(pool, position, registry, delta, timestamp) {
        Ok(o) => o,
        Err(e) => { return Err(e); },
    };
    if outcome.change.amount_a < token_min_a || outcome.change.amount_b < token_min_b {
        return Err(PoolError::TokenMinSubceeded);
    }
    commit_liquidity_change(pool, position, registry, &outcome);
    Ok(outcome.change)
}

/// Settles the fees and rewards that a position has earned, without
/// changing its liquidity: the reward streams of the pool are brought up
/// to `timestamp`, and the owed balances and checkpoints of the position
/// are brought up to the growth inside its range. The ticks are only read.
/// On a failure pool and position are left as they were.
pub fn update_fees_and_rewards(
    pool: &mut Pool,
    position: &mut Position,
    registry: &TickRegistry,
    timestamp: u64,
) -> (r: Result<(), PoolError>)
    requires
        registry.spec_wf(),
    ensures
        old(pool).spec_wf() ==> final(pool).spec_wf(),
        final(position).tick_lower_index == old(position).tick_lower_index,
        final(position).tick_upper_index == old(position).tick_upper_index,
        match spec_apply_liquidity(
            *old(pool),
            *old(position),
            registry.spec_tick_at(old(position).tick_lower_index as int),
            registry.spec_tick_at(old(position).tick_upper_index as int),
            0,
            timestamp,
        ) {
            Ok(o) => r == Ok::<(), PoolError>(()) && *final(pool) == o.pool && *final(position)
                == o.position && final(position).liquidity == old(position).liquidity
                && final(pool).liquidity == old(pool).liquidity,
            Err(e) => r == Err::<(), PoolError>(e) && *final(pool) == *old(pool) && *final(position) == *old(position),
        },
{
    let outcome = match plan_liquidity_change(pool, position, registry, 0, timestamp) {
        Ok(o) => o,
        Err(e) => { return Err(e); },
    };
    *pool = outcome.pool;
    *position = outcome.position;
    Ok(())
}

/// A boundary tick that took a deposit gives it back: the change undone
/// restores the record, and in between the tick reads, from inside the
/// range, as it did before.
pub proof fn lemma_tick_gives_back(
    tick: Tick,
    tick_index: int,
    tick_current: int,
    fee_growth_global_a: u128,
    fee_growth_global_b: u128,
    reward_growths_global: [u128; 3],
    amount: i128,
    is_upper: bool,
)
    requires
        amount > 0,
        tick.spec_wf(),
        spec_update_tick(
            tick,
            tick_index,
            tick_current,
            fee_growth_global_a,
            fee_growth_global_b,
            reward_growths_global,
            amount,
            is_upper,
        ) is Ok,
    ensures
        ({
            let taken = spec_update_tick(
                tick,
                tick_index,
                tick_current,
                fee_growth_global_a,
                fee_growth_global_b,
                reward_growths_global,
                amount,
                is_upper,
            ).unwrap();
            &&& taken.initialized
            &&& spec_effective_tick(
                taken,
                tick_index,
                tick_current,
                fee_growth_global_a,
                fee_growth_global_b,
                reward_growths_global,
            ) == taken
            &&& taken.fee_growth_outside_a == spec_effective_tick(
                tick,
                tick_index,
                tick_current,
                fee_growth_global_a,
                fee_growth_global_b,
                reward_growths_global,
            ).fee_growth_outside_a
            &&& taken.fee_growth_outside_b == spec_effective_tick(
                tick,
                tick_index,
                tick_current,
                fee_growth_global_a,
                fee_growth_global_b,
                reward_growths_global,
            ).fee_growth_outside_b
            &&& taken.reward_growths_outside == spec_effective_tick(
                tick,
                tick_index,
                tick_current,
                fee_growth_global_a,
                fee_growth_global_b,
                reward_growths_global,
            ).reward_growths_outside
            &&& spec_update_tick(
                taken,
                tick_index,
                tick_current,
                fee_growth_global_a,
                fee_growth_global_b,
                reward_growths_global,
                (-amount) as i128,
                is_upper,
            ) == Ok::<Tick, PoolError>(tick)
        }),
{
    let taken = spec_update_tick(
        tick,
        tick_index,
        tick_current,
        fee_growth_global_a,
        fee_growth_global_b,
        reward_growths_global,
        amount,
        is_upper,
    ).unwrap();
    let eff = spec_effective_tick(
        tick,
        tick_index,
        tick_current,
        fee_growth_global_a,
        fee_growth_global_b,
        reward_growths_global,
    );
    assert(taken.reward_growths_outside =~= eff.reward_growths_outside) by {
        if !tick.initialized && tick_current < tick_index {
            assert(eff.reward_growths_outside =~= [0u128, 0u128, 0u128]);
        }
    }
    let back = spec_update_tick(
        taken,
        tick_index,
        tick_current,
        fee_growth_global_a,
        fee_growth_global_b,
        reward_growths_global,
        (-amount) as i128,
        is_upper,
    );
    assert(back is Ok);
    assert(back.unwrap().reward_growths_outside =~= tick.reward_growths_outside);
}

/// Streams that were brought up to a time stay as they are when brought
/// up to the same time again, whatever liquidity is active by then.
pub proof fn lemma_rewards_stand_still(
    infos: [RewardInfo; 3],
    liquidity: u128,
    liquidity_after: u128,
    timestamp: u64,
)
    requires
        spec_next_reward_infos(infos, liquidity, timestamp) is Ok,
    ensures
        spec_next_reward_infos(
            spec_next_reward_infos(infos, liquidity, timestamp).unwrap(),
            liquidity_after,
            timestamp,
        ) == spec_next_reward_infos(infos, liquidity, timestamp),
{
    let rewards = spec_next_reward_infos(infos, liquidity, timestamp).unwrap();
    lemma_reward_update_idempotent_at(rewards[0], infos[0], liquidity, liquidity_after, timestamp);
    lemma_reward_update_idempotent_at(rewards[1], infos[1], liquidity, liquidity_after, timestamp);
    lemma_reward_update_idempotent_at(rewards[2], infos[2], liquidity, liquidity_after, timestamp);
    let again = spec_next_reward_infos(rewards, liquidity_after, timestamp);
    assert(again is Ok);
    assert(again.unwrap() =~= rewards);
}

/// A position that was just settled against some growth is left as it is
/// when settled against the same growth again, whatever its liquidity.
pub proof fn lemma_settled_position_stands_still(
    position: Position,
    fee_growth_inside_a: u128,
    fee_growth_inside_b: u128,
    reward_growths_inside: [u128; 3],
)
    requires
        position.fee_growth_checkpoint_a == fee_growth_inside_a,
        position.fee_growth_checkpoint_b == fee_growth_inside_b,
        position.reward_infos[0].growth_inside_checkpoint == reward_growths_inside[0],
        position.reward_infos[1].growth_inside_checkpoint == reward_growths_inside[1],
        position.reward_infos[2].growth_inside_checkpoint == reward_growths_inside[2],
    ensures
        spec_settle_position(
            position,
            fee_growth_inside_a,
            fee_growth_inside_b,
            reward_growths_inside,
        ) == Ok::<Position, PoolError>(position),
{
    lemma_settled_owes_nothing_new(position.fee_owed_a, position.liquidity, fee_growth_inside_a);
    lemma_settled_owes_nothing_new(position.fee_owed_b, position.liquidity, fee_growth_inside_b);
    lemma_settled_owes_nothing_new(
        position.reward_infos[0].amount_owed,
        position.liquidity,
        reward_growths_inside[0],
    );
    lemma_settled_owes_nothing_new(
        position.reward_infos[1].amount_owed,
        position.liquidity,
        reward_growths_inside[1],
    );
    lemma_settled_owes_nothing_new(
        position.reward_infos[2].amount_owed,
        position.liquidity,
        reward_growths_inside[2],
    );
    let settled = spec_settle_position(
        position,
        fee_growth_inside_a,
        fee_growth_inside_b,
        reward_growths_inside,
    );
    assert(settled is Ok);
    assert(settled.unwrap().reward_infos =~= position.reward_infos);
}

/// A deposit can be withdrawn again at once, at the same time and price,
/// and that leaves the active liquidity of the pool, the liquidity of the
/// position and the records of both boundary ticks as they were before
/// the deposit; the withdrawal earns the position nothing, and pays out
/// no more of either asset than the deposit took in.
pub proof fn lemma_deposit_then_withdraw_restores(
    pool: Pool,
    position: Position,
    lower: Tick,
    upper: Tick,
    amount: i128,
    timestamp: u64,
)
    requires
        amount > 0,
        lower.spec_wf(),
        upper.spec_wf(),
        spec_apply_liquidity(pool, position, Some(lower), Some(upper), amount, timestamp) is Ok,
    ensures
        ({
            let first = spec_apply_liquidity(
                pool,
                position,
                Some(lower),
                Some(upper),
                amount,
                timestamp,
            ).unwrap();
            let again = spec_apply_liquidity(
                first.pool,
                first.position,
                Some(first.tick_lower),
                Some(first.tick_upper),
                (-amount) as i128,
                timestamp,
            );
            &&& again is Ok
            &&& again.unwrap().pool.liquidity == pool.liquidity
            &&& again.unwrap().pool == Pool { liquidity: pool.liquidity, ..first.pool }
            &&& again.unwrap().position.liquidity == position.liquidity
            &&& again.unwrap().position == Position {
                liquidity: position.liquidity,
                ..first.position
            }
            &&& again.unwrap().tick_lower == lower
            &&& again.unwrap().tick_upper == upper
            &&& again.unwrap().change.amount_a <= first.change.amount_a
            &&& again.unwrap().change.amount_b <= first.change.amount_b
        }),
{
    let li = position.tick_lower_index as int;
    let ui = position.tick_upper_index as int;
    let cur = pool.tick_current_index as int;
    let ga = pool.fee_growth_global_a;
    let gb = pool.fee_growth_global_b;
    let first = spec_apply_liquidity(
        pool,
        position,
        Some(lower),
        Some(upper),
        amount,
        timestamp,
    ).unwrap();
    let rewards = spec_next_reward_infos(pool.reward_infos, pool.liquidity, timestamp).unwrap();
    let growths = spec_growths_of(rewards);
    // no time has passed: the streams stand still
    lemma_rewards_stand_still(pool.reward_infos, pool.liquidity, first.pool.liquidity, timestamp);
    // the ticks read the same from inside the range, and give back what they took
    lemma_tick_gives_back(lower, li, cur, ga, gb, growths, amount, false);
    lemma_tick_gives_back(upper, ui, cur, ga, gb, growths, amount, true);
    let lo_eff = spec_effective_tick(lower, li, cur, ga, gb, growths);
    let up_eff = spec_effective_tick(upper, ui, cur, ga, gb, growths);
    let fa = spec_growth_inside(
        lo_eff.fee_growth_outside_a,
        up_eff.fee_growth_outside_a,
        li,
        ui,
        cur,
        ga,
    );
    let fb = spec_growth_inside(
        lo_eff.fee_growth_outside_b,
        up_eff.fee_growth_outside_b,
        li,
        ui,
        cur,
        gb,
    );
    let rg = spec_reward_growths_inside(lo_eff, up_eff, li, ui, cur, growths);
    let rg_again = spec_reward_growths_inside(
        first.tick_lower,
        first.tick_upper,
        li,
        ui,
        cur,
        growths,
    );
    assert(rg_again =~= rg);
    // settled against the same growth, the position earns nothing
    lemma_settled_position_stands_still(first.position, fa, fb, rg);
    // what comes out, rounded down, is within what went in, rounded up
    lemma_withdrawal_within_deposit(pool.sqrt_price, cur, li, ui, spec_magnitude(amount));
    assert(spec_magnitude((-amount) as i128) == spec_magnitude(amount));
    let again = spec_apply_liquidity(
        first.pool,
        first.position,
        Some(first.tick_lower),
        Some(first.tick_upper),
        (-amount) as i128,
        timestamp,
    );
    assert(again is Ok);
}

/// Over one range and at one price, the amounts of a withdrawal fit where
/// those of the deposit of the same liquidity do, and are not the larger
/// ones.
pub proof fn lemma_withdrawal_within_deposit(
    sqrt_price: u128,
    tick_current: int,
    tick_lower: int,
    tick_upper: int,
    liquidity: u128,
)
    requires
        spec_token_amounts(sqrt_price, tick_current, tick_lower, tick_upper, liquidity, true)
            is Ok,
    ensures
        spec_token_amounts(sqrt_price, tick_current, tick_lower, tick_upper, liquidity, false)
            is Ok,
        spec_token_amounts(
            sqrt_price,
            tick_current,
            tick_lower,
            tick_upper,
            liquidity,
            false,
        ).unwrap().0 <= spec_token_amounts(
            sqrt_price,
            tick_current,
            tick_lower,
            tick_upper,
            liquidity,
            true,
        ).unwrap().0,
        spec_token_amounts(
            sqrt_price,
            tick_current,
            tick_lower,
            tick_upper,
            liquidity,
            false,
        ).unwrap().1 <= spec_token_amounts(
            sqrt_price,
            tick_current,
            tick_lower,
            tick_upper,
            liquidity,
            true,
        ).unwrap().1,
{
    let lower = spec_sqrt_price_at_tick(tick_lower) as u128;
    let upper = spec_sqrt_price_at_tick(tick_upper) as u128;
    lemma_rounded_down_fits(lower, upper, liquidity);
    lemma_rounded_down_fits(sqrt_price, upper, liquidity);
    lemma_rounded_down_fits(lower, sqrt_price, liquidity);
}

/// A stream that was brought up to a time stays as it is when brought up
/// to the same time again, whatever liquidity is active by then.
proof fn lemma_reward_update_idempotent_at(
    updated: RewardInfo,
    info: RewardInfo,
    liquidity: u128,
    liquidity_after: u128,
    timestamp: u64,
)
    requires
        spec_next_reward_info(info, liquidity, timestamp) == Ok::<RewardInfo, PoolError>(updated),
    ensures
        spec_next_reward_info(updated, liquidity_after, timestamp) == Ok::<RewardInfo, PoolError>(
            updated,
        ),
{
    lemma_wrapping_laws(updated.growth_global_x64, 0);
}

} // verus!
