use vstd::prelude::*;
use crate::constants::NUM_REWARDS;
use crate::errors::PoolError;
use crate::math::growth_math::{lemma_wrapping_laws, spec_wrapping_sub, wrapping_sub};
use crate::state::tick::Tick;

verus! {

/// The three accumulators, each taken from its total.
pub open spec fn spec_flip_growths(totals: [u128; 3], outside: [u128; 3]) -> [u128; 3] {
    [
        spec_wrapping_sub(totals[0], outside[0]),
        spec_wrapping_sub(totals[1], outside[1]),
        spec_wrapping_sub(totals[2], outside[2]),
    ]
}

/// The record of a tick after the price has crossed it: every growth
/// outside is taken from the running total, since the side that was away
/// from the price is now the other one. The liquidity fields stay.
pub open spec fn spec_cross_tick(
    tick: Tick,
    fee_growth_global_a: u128,
    fee_growth_global_b: u128,
    reward_growths_global: [u128; 3],
) -> Tick {
    Tick {
        initialized: tick.initialized,
        liquidity_net: tick.liquidity_net,
        liquidity_gross: tick.liquidity_gross,
        fee_growth_outside_a: spec_wrapping_sub(fee_growth_global_a, tick.fee_growth_outside_a),
        fee_growth_outside_b: spec_wrapping_sub(fee_growth_global_b, tick.fee_growth_outside_b),
        reward_growths_outside: spec_flip_growths(
            reward_growths_global,
            tick.reward_growths_outside,
        ),
    }
}

/// Active liquidity after a tick is crossed: its net liquidity joins when
/// the price rises through it and leaves when the price falls through it.
pub open spec fn spec_liquidity_after_cross(liquidity: u128, liquidity_net: i128, a_to_b: bool) -> int {
    if a_to_b {
        liquidity - liquidity_net
    } else {
        liquidity + liquidity_net
    }
}

/// Growth on the side of a tick below it.
pub open spec fn spec_growth_below(
    outside: u128,
    tick_index: int,
    tick_current: int,
    global: u128,
) -> u128 {
    if tick_current >= tick_index {
        outside
    } else {
        spec_wrapping_sub(global, outside)
    }
}

/// Growth on the side of a tick above it.
pub open spec fn spec_growth_above(
    outside: u128,
    tick_index: int,
    tick_current: int,
    global: u128,
) -> u128 {
    if tick_current < tick_index {
        outside
    } else {
        spec_wrapping_sub(global, outside)
    }
}

/// Growth inside a range: the total less what grew below the lower bound
/// and less what grew above the upper bound.
pub open spec fn spec_growth_inside(
    lower_outside: u128,
    upper_outside: u128,
    tick_lower: int,
    tick_upper: int,
    tick_current: int,
    global: u128,
) -> u128 {
    spec_wrapping_sub(
        spec_wrapping_sub(global, spec_growth_below(lower_outside, tick_lower, tick_current, global)),
        spec_growth_above(upper_outside, tick_upper, tick_current, global),
    )
}

/// Reward growth inside a range, for each of the three streams.
pub open spec fn spec_reward_growths_inside(
    lower: Tick,
    upper: Tick,
    tick_lower: int,
    tick_upper: int,
    tick_current: int,
    globals: [u128; 3],
) -> [u128; 3] {
    [
        spec_growth_inside(
            lower.reward_growths_outside[0],
            upper.reward_growths_outside[0],
            tick_lower,
            tick_upper,
            tick_current,
            globals[0],
        ),
        spec_growth_inside(
            lower.reward_growths_outside[1],
            upper.reward_growths_outside[1],
            tick_lower,
            tick_upper,
            tick_current,
            globals[1],
        ),
        spec_growth_inside(
            lower.reward_growths_outside[2],
            upper.reward_growths_outside[2],
            tick_lower,
            tick_upper,
            tick_current,
            globals[2],
        ),
    ]
}

/// The record of a boundary tick after the liquidity of a position that
/// ends on it changes by `liquidity_delta`; an error where the liquidity
/// does not fit.
///
/// A tick that comes into use starts with the running totals as its growth
/// outside when the price stands at or above it, and with zero otherwise.
/// A tick that goes out of use is cleared.
pub open spec fn spec_update_tick(
    tick: Tick,
    tick_index: int,
    tick_current: int,
    fee_growth_global_a: u128,
    fee_growth_global_b: u128,
    reward_growths_global: [u128; 3],
    liquidity_delta: i128,
    is_upper: bool,
) -> Result<Tick, PoolError> {
    let gross = tick.liquidity_gross + liquidity_delta;
    let net = if is_upper {
        tick.liquidity_net - liquidity_delta
    } else {
        tick.liquidity_net + liquidity_delta
    };
    if liquidity_delta == 0 {
        Ok(tick)
    } else if gross < 0 || gross > u128::MAX || net < i128::MIN || net > i128::MAX {
        Err(PoolError::LiquidityOverflow)
    } else if gross == 0 {
        Ok(Tick::spec_empty())
    } else if tick.liquidity_gross == 0 {
        if tick_current >= tick_index {
            Ok(
                Tick {
                    initialized: true,
                    liquidity_net: net as i128,
                    liquidity_gross: gross as u128,
                    fee_growth_outside_a: fee_growth_global_a,
                    fee_growth_outside_b: fee_growth_global_b,
                    reward_growths_outside: reward_growths_global,
                },
            )
        } else {
            Ok(
                Tick {
                    initialized: true,
                    liquidity_net: net as i128,
                    liquidity_gross: gross as u128,
                    fee_growth_outside_a: 0,
                    fee_growth_outside_b: 0,
                    reward_growths_outside: [0u128, 0u128, 0u128],
                },
            )
        }
    } else {
        Ok(
            Tick {
                initialized: true,
                liquidity_net: net as i128,
                liquidity_gross: gross as u128,
                fee_growth_outside_a: tick.fee_growth_outside_a,
                fee_growth_outside_b: tick.fee_growth_outside_b,
                reward_growths_outside: tick.reward_growths_outside,
            },
        )
    }
}

/// Takes each of three accumulators from its total.
pub fn flip_growths(totals: &[u128; NUM_REWARDS], outside: &[u128; NUM_REWARDS]) -> (r: [u128;
    NUM_REWARDS])
    ensures
        r == spec_flip_growths(*totals, *outside),
{
    let r = [
        wrapping_sub(totals[0], outside[0]),
        wrapping_sub(totals[1], outside[1]),
        wrapping_sub(totals[2], outside[2]),
    ];
    assert(r =~= spec_flip_growths(*totals, *outside));
    r
}

/// Computes the record of a tick after the price has crossed it.
pub fn cross_tick(
    tick: &Tick,
    fee_growth_global_a: u128,
    fee_growth_global_b: u128,
    reward_growths_global: &[u128; NUM_REWARDS],
) -> (r: Tick)
    ensures
        r == spec_cross_tick(*tick, fee_growth_global_a, fee_growth_global_b, *reward_growths_global),
        tick.initialized && tick.spec_wf() ==> r.spec_wf(),
{
    Tick {
        initialized: tick.initialized,
        liquidity_net: tick.liquidity_net,
        liquidity_gross: tick.liquidity_gross,
        fee_growth_outside_a: wrapping_sub(fee_growth_global_a, tick.fee_growth_outside_a),
        fee_growth_outside_b: wrapping_sub(fee_growth_global_b, tick.fee_growth_outside_b),
        reward_growths_outside: flip_growths(reward_growths_global, &tick.reward_growths_outside),
    }
}

/// Computes the active liquidity after a tick is crossed.
///
/// Fails where the liquidity would fall below zero or no longer fit.
pub fn liquidity_after_cross(liquidity: u128, liquidity_net: i128, a_to_b: bool) -> (r: Result<
    u128,
    PoolError,
>)
    ensures
        0 <= spec_liquidity_after_cross(liquidity, liquidity_net, a_to_b) <= u128::MAX ==> r
            == Ok::<u128, PoolError>(
            spec_liquidity_after_cross(liquidity, liquidity_net, a_to_b) as u128,
        ),
        !(0 <= spec_liquidity_after_cross(liquidity, liquidity_net, a_to_b) <= u128::MAX) ==> r
            == Err::<u128, PoolError>(PoolError::LiquidityOverflow),
{
    if a_to_b == (liquidity_net < 0) {
        // the magnitude of the net liquidity joins
        let magnitude: u128 = if liquidity_net < 0 {
            ((-(liquidity_net + 1)) as u128) + 1
        } else {
            liquidity_net as u128
        };
        match liquidity.checked_add(magnitude) {
            Some(v) => Ok(v),
            None => Err(PoolError::LiquidityOverflow),
        }
    } else {
        // the magnitude of the net liquidity leaves
        let magnitude: u128 = if liquidity_net < 0 {
            ((-(liquidity_net + 1)) as u128) + 1
        } else {
            liquidity_net as u128
        };
        if magnitude > liquidity {
            Err(PoolError::LiquidityOverflow)
        } else {
            Ok(liquidity - magnitude)
        }
    }
}

/// Crossing a tick upward and then downward, with no fees or rewards
/// accrued in between, gives back the active liquidity and the record of
/// the tick.
pub proof fn lemma_cross_twice_restores(
    liquidity: u128,
    tick: Tick,
    fee_growth_global_a: u128,
    fee_growth_global_b: u128,
    reward_growths_global: [u128; 3],
)
    requires
        0 <= spec_liquidity_after_cross(liquidity, tick.liquidity_net, false) <= u128::MAX,
    ensures
        spec_liquidity_after_cross(
            spec_liquidity_after_cross(liquidity, tick.liquidity_net, false) as u128,
            tick.liquidity_net,
            true,
        ) == liquidity,
        spec_cross_tick(
            spec_cross_tick(tick, fee_growth_global_a, fee_growth_global_b, reward_growths_global),
            fee_growth_global_a,
            fee_growth_global_b,
            reward_growths_global,
        ) == tick,
{
    let once = spec_cross_tick(
        tick,
        fee_growth_global_a,
        fee_growth_global_b,
        reward_growths_global,
    );
    let twice = spec_cross_tick(
        once,
        fee_growth_global_a,
        fee_growth_global_b,
        reward_growths_global,
    );
    lemma_wrapping_laws(fee_growth_global_a, tick.fee_growth_outside_a);
    lemma_wrapping_laws(fee_growth_global_b, tick.fee_growth_outside_b);
    lemma_wrapping_laws(reward_growths_global[0], tick.reward_growths_outside[0]);
    lemma_wrapping_laws(reward_growths_global[1], tick.reward_growths_outside[1]);
    lemma_wrapping_laws(reward_growths_global[2], tick.reward_growths_outside[2]);
    assert(twice.fee_growth_outside_a == tick.fee_growth_outside_a);
    assert(twice.fee_growth_outside_b == tick.fee_growth_outside_b);
    assert(twice.reward_growths_outside =~= tick.reward_growths_outside);
}

/// Crossing a tick downward and then upward gives back the active
/// liquidity too.
pub proof fn lemma_cross_down_up_restores(liquidity: u128, liquidity_net: i128)
    requires
        0 <= spec_liquidity_after_cross(liquidity, liquidity_net, true) <= u128::MAX,
    ensures
        spec_liquidity_after_cross(
            spec_liquidity_after_cross(liquidity, liquidity_net, true) as u128,
            liquidity_net,
            false,
        ) == liquidity,
{
}

/// Computes growth inside a range from the growth outside its two bounds.
pub fn growth_inside(
    lower_outside: u128,
    upper_outside: u128,
    tick_lower: i32,
    tick_upper: i32,
    tick_current: i32,
    global: u128,
) -> (r: u128)
    ensures
        r == spec_growth_inside(
            lower_outside,
            upper_outside,
            tick_lower as int,
            tick_upper as int,
            tick_current as int,
            global,
        ),
{
    let below: u128 = if tick_current >= tick_lower {
        lower_outside
    } else {
        wrapping_sub(global, lower_outside)
    };
    let above: u128 = if tick_current < tick_upper {
        upper_outside
    } else {
        wrapping_sub(global, upper_outside)
    };
    wrapping_sub(wrapping_sub(global, below), above)
}

/// Computes reward growth inside a range for each of the three streams.
pub fn reward_growths_inside(
    lower: &Tick,
    upper: &Tick,
    tick_lower: i32,
    tick_upper: i32,
    tick_current: i32,
    globals: &[u128; NUM_REWARDS],
) -> (r: [u128; NUM_REWARDS])
    ensures
        r == spec_reward_growths_inside(
            *lower,
            *upper,
            tick_lower as int,
            tick_upper as int,
            tick_current as int,
            *globals,
        ),
{
    let r = [
        growth_inside(
            lower.reward_growths_outside[0],
            upper.reward_growths_outside[0],
            tick_lower,
            tick_upper,
            tick_current,
            globals[0],
        ),
        growth_inside(
            lower.reward_growths_outside[1],
            upper.reward_growths_outside[1],
            tick_lower,
            tick_upper,
            tick_current,
            globals[1],
        ),
        growth_inside(
            lower.reward_growths_outside[2],
            upper.reward_growths_outside[2],
            tick_lower,
            tick_upper,
            tick_current,
            globals[2],
        ),
    ];
    assert(r =~= spec_reward_growths_inside(
        *lower,
        *upper,
        tick_lower as int,
        tick_upper as int,
        tick_current as int,
        *globals,
    ));
    r
}

/// Computes the record of a boundary tick after the liquidity of a
/// position that ends on it changes by `liquidity_delta`.
pub fn update_tick(
    tick: &Tick,
    tick_index: i32,
    tick_current: i32,
    fee_growth_global_a: u128,
    fee_growth_global_b: u128,
    reward_growths_global: &[u128; NUM_REWARDS],
    liquidity_delta: i128,
    is_upper: bool,
) -> (r: Result<Tick, PoolError>)
    ensures
        r == spec_update_tick(
            *tick,
            tick_index as int,
            tick_current as int,
            fee_growth_global_a,
            fee_growth_global_b,
            *reward_growths_global,
            liquidity_delta,
            is_upper,
        ),
        tick.spec_wf() && r is Ok ==> r.unwrap().spec_wf(),
{
    if liquidity_delta == 0 {
        return Ok(*tick);
    }
    let gross: u128 = match crate::math::liquidity_math::add_delta(
        tick.liquidity_gross,
        liquidity_delta,
    ) {
        Ok(v) => v,
        Err(_) => { return Err(PoolError::LiquidityOverflow); },
    };
    let net_opt: Option<i128> = if is_upper {
        tick.liquidity_net.checked_sub(liquidity_delta)
    } else {
        tick.liquidity_net.checked_add(liquidity_delta)
    };
    let net: i128 = match net_opt {
        Some(v) => v,
        None => { return Err(PoolError::LiquidityOverflow); },
    };
    if gross == 0 {
        return Ok(Tick::new());
    }
    if tick.liquidity_gross == 0 {
        if tick_current >= tick_index {
            Ok(
                Tick {
                    initialized: true,
                    liquidity_net: net,
                    liquidity_gross: gross,
                    fee_growth_outside_a: fee_growth_global_a,
                    fee_growth_outside_b: fee_growth_global_b,
                    reward_growths_outside: *reward_growths_global,
                },
            )
        } else {
            let zeros: [u128; NUM_REWARDS] = [0u128, 0u128, 0u128];
            let r = Tick {
                initialized: true,
                liquidity_net: net,
                liquidity_gross: gross,
                fee_growth_outside_a: 0,
                fee_growth_outside_b: 0,
                reward_growths_outside: zeros,
            };
            assert(zeros =~= [0u128, 0u128, 0u128]);
            Ok(r)
        }
    } else {
        Ok(
            Tick {
                initialized: true,
                liquidity_net: net,
                liquidity_gross: gross,
                fee_growth_outside_a: tick.fee_growth_outside_a,
                fee_growth_outside_b: tick.fee_growth_outside_b,
                reward_growths_outside: tick.reward_growths_outside,
            },
        )
    }
}

} // verus!
