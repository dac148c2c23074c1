use vstd::prelude::*;
use crate::constants::{MAX_TICK_INDEX, MIN_TICK_INDEX};
use crate::manager::liquidity_accounting::{
    lemma_active_constant_between, lemma_active_steps_by_net, spec_active_liquidity,
    spec_gross_liquidity, spec_liquidity_accounted, spec_ranges_proper, spec_tick_accounted,
};
use crate::manager::liquidity_manager::spec_growths_of;
use crate::manager::reward_manager::spec_next_reward_infos;
use crate::manager::swap_manager::{
    lemma_swap_run_unfolds, spec_book_step, spec_state_wf, spec_step_target, spec_swap,
    spec_swap_env, spec_swap_iteration, spec_swap_measure, spec_swap_run, spec_swap_start,
    spec_tick_after, CrossedTick, SwapEnv, SwapState,
};
use crate::manager::tick_registry::TickRegistry;
use crate::math::price_math::{
    lemma_price_has_tick, lemma_sqrt_price_bounds, lemma_sqrt_price_never_falls,
    lemma_sqrt_price_step_never_falls, spec_is_tick_of_price, spec_sqrt_price_at_tick,
    spec_tick_of_price,
};
use crate::math::swap_math::{lemma_step_moves_toward_target, spec_swap_step};
use crate::state::pool::Pool;
use crate::state::position::Position;

verus! {

/// Every tick holds the net and the gross liquidity that the positions
/// put on it, and a tick without a record bounds no liquidity.
pub open spec fn spec_ticks_accounted(registry: TickRegistry, positions: Seq<Position>) -> bool {
    &&& spec_ranges_proper(positions)
    &&& forall|t: int| #[trigger] spec_tick_accounted(registry.spec_tick_at(t), positions, t)
}

/// A crossed tick keeps the liquidity of the record it comes from.
pub open spec fn spec_crossing_keeps_liquidity(registry: TickRegistry, crossed: CrossedTick) -> bool {
    &&& registry.spec_tick_at(crossed.tick_index as int) is Some
    &&& crossed.record.spec_wf()
    &&& crossed.record.liquidity_gross == registry.spec_tick_at(
        crossed.tick_index as int,
    ).unwrap().liquidity_gross
    &&& crossed.record.liquidity_net == registry.spec_tick_at(
        crossed.tick_index as int,
    ).unwrap().liquidity_net
}

/// Every crossed tick of a list keeps the liquidity of its record.
pub open spec fn spec_crossings_keep_liquidity(
    registry: TickRegistry,
    crossed: Seq<CrossedTick>,
) -> bool {
    forall|j: int|
        0 <= j < crossed.len() ==> spec_crossing_keeps_liquidity(registry, #[trigger] crossed[j])
}

/// If any initialized tick lies at or below `from`, one of them is the
/// nearest.
proof fn lemma_nearest_below_exists(registry: TickRegistry, from: int, u: int)
    requires
        registry.spec_is_initialized(u),
        u <= from,
    ensures
        exists|t: int| #[trigger] registry.spec_is_next_initialized(from, true, t),
    decreases from - u,
{
    if registry.spec_is_initialized(from) {
        assert(registry.spec_is_next_initialized(from, true, from));
    } else {
        lemma_nearest_below_exists(registry, from - 1, u);
        let t = choose|t: int| #[trigger] registry.spec_is_next_initialized(from - 1, true, t);
        assert(registry.spec_is_next_initialized(from, true, t));
    }
}

/// If any initialized tick lies above `from`, one of them is the nearest.
proof fn lemma_nearest_above_exists(registry: TickRegistry, from: int, u: int)
    requires
        registry.spec_is_initialized(u),
        from < u,
    ensures
        exists|t: int| #[trigger] registry.spec_is_next_initialized(from, false, t),
    decreases u - from,
{
    if registry.spec_is_initialized(from + 1) {
        assert(registry.spec_is_next_initialized(from, false, from + 1));
    } else {
        lemma_nearest_above_exists(registry, from + 1, u);
        let t = choose|t: int| #[trigger] registry.spec_is_next_initialized(from + 1, false, t);
        assert(registry.spec_is_next_initialized(from, false, t));
    }
}

/// The nearest initialized tick is what its name says: where there is
/// one, no initialized tick lies between; where there is none, no
/// initialized tick lies in the direction of travel at all.
pub proof fn lemma_next_initialized_is_nearest(registry: TickRegistry, from: int, a_to_b: bool)
    ensures
        match registry.spec_next_initialized(from, a_to_b) {
            Some(t) => registry.spec_is_next_initialized(from, a_to_b, t),
            None => registry.spec_none_initialized(from, a_to_b),
        },
{
    if registry.spec_next_initialized(from, a_to_b) is None {
        if a_to_b {
            assert forall|u: int| u <= from implies !#[trigger] registry.spec_is_initialized(
                u,
            ) by {
                if registry.spec_is_initialized(u) {
                    lemma_nearest_below_exists(registry, from, u);
                }
            }
        } else {
            assert forall|u: int| from < u implies !#[trigger] registry.spec_is_initialized(
                u,
            ) by {
                if registry.spec_is_initialized(u) {
                    lemma_nearest_above_exists(registry, from, u);
                }
            }
        }
    }
}

/// A tick that is not initialized bounds no liquidity.
pub proof fn lemma_uninitialized_bounds_nothing(
    registry: TickRegistry,
    positions: Seq<Position>,
    u: int,
)
    requires
        spec_ticks_accounted(registry, positions),
        !registry.spec_is_initialized(u),
    ensures
        spec_gross_liquidity(positions, u) == 0,
{
    assert(spec_tick_accounted(registry.spec_tick_at(u), positions, u));
}

/// Crossing the nearest initialized tick keeps the account: the active
/// liquidity after the crossing is that of the positions whose range
/// holds the tick that the price then stands in.
proof fn lemma_crossing_keeps_account(
    liquidity: u128,
    tick: int,
    t: int,
    a_to_b: bool,
    registry: TickRegistry,
    positions: Seq<Position>,
)
    requires
        spec_ticks_accounted(registry, positions),
        liquidity == spec_active_liquidity(positions, tick),
        registry.spec_is_next_initialized(tick, a_to_b, t),
    ensures
        registry.spec_tick_at(t) is Some,
        registry.spec_tick_at(t).unwrap().spec_wf(),
        registry.spec_tick_at(t).unwrap().initialized,
        a_to_b ==> liquidity - registry.spec_tick_at(t).unwrap().liquidity_net
            == spec_active_liquidity(positions, t - 1),
        !a_to_b ==> liquidity + registry.spec_tick_at(t).unwrap().liquidity_net
            == spec_active_liquidity(positions, t),
{
    assert(spec_tick_accounted(registry.spec_tick_at(t), positions, t));
    lemma_active_steps_by_net(positions, t);
    if a_to_b {
        assert forall|u: int| t < u <= tick implies #[trigger] spec_gross_liquidity(positions, u)
            == 0 by {
            lemma_uninitialized_bounds_nothing(registry, positions, u);
        }
        lemma_active_constant_between(positions, t, tick);
    } else {
        assert forall|u: int| tick < u <= t - 1 implies #[trigger] spec_gross_liquidity(
            positions,
            u,
        ) == 0 by {
            lemma_uninitialized_bounds_nothing(registry, positions, u);
        }
        lemma_active_constant_between(positions, tick, t - 1);
    }
}

/// A price that stops between two initialized ticks stands in a tick with
/// the same active liquidity as the tick it came from.
proof fn lemma_stop_keeps_account(
    price: u128,
    tick: int,
    moved: u128,
    target: u128,
    next: Option<int>,
    a_to_b: bool,
    registry: TickRegistry,
    positions: Seq<Position>,
)
    requires
        spec_ticks_accounted(registry, positions),
        MIN_TICK_INDEX - 1 <= tick <= MAX_TICK_INDEX,
        tick >= MIN_TICK_INDEX ==> spec_sqrt_price_at_tick(tick) <= price,
        price <= spec_sqrt_price_at_tick(tick + 1),
        moved != price,
        a_to_b ==> target <= moved <= price,
        !a_to_b ==> price <= moved <= target,
        spec_is_tick_of_price(moved as int, spec_tick_of_price(moved as int)),
        match next {
            Some(t) => registry.spec_is_next_initialized(tick, a_to_b, t) && moved
                != spec_sqrt_price_at_tick(t) && (a_to_b ==> target >= spec_sqrt_price_at_tick(t))
                && (!a_to_b ==> target <= spec_sqrt_price_at_tick(t)),
            None => registry.spec_none_initialized(tick, a_to_b),
        },
    ensures
        spec_active_liquidity(positions, spec_tick_of_price(moved as int)) == spec_active_liquidity(
            positions,
            tick,
        ),
{
    let after = spec_tick_of_price(moved as int);
    if a_to_b {
        if after > tick {
            lemma_sqrt_price_never_falls(tick + 1, after);
        }
        assert(after <= tick);
        if next is Some {
            let t = next.unwrap();
            if after < t {
                lemma_sqrt_price_never_falls(after + 1, t);
            }
            assert(after >= t);
        }
        assert forall|u: int| after < u <= tick implies #[trigger] spec_gross_liquidity(
            positions,
            u,
        ) == 0 by {
            lemma_uninitialized_bounds_nothing(registry, positions, u);
        }
        lemma_active_constant_between(positions, after, tick);
    } else {
        if after < tick {
            lemma_sqrt_price_never_falls(after + 1, tick);
        }
        assert(after >= tick);
        if next is Some {
            let t = next.unwrap();
            if after >= t {
                lemma_sqrt_price_never_falls(t, after);
            }
            assert(after < t);
        }
        assert forall|u: int| tick < u <= after implies #[trigger] spec_gross_liquidity(
            positions,
            u,
        ) == 0 by {
            lemma_uninitialized_bounds_nothing(registry, positions, u);
        }
        lemma_active_constant_between(positions, tick, after);
    }
}

/// An iteration of a swap keeps the account and the form of the state:
/// after it, the active liquidity is that of the positions whose range
/// holds the tick that the price stands in, and a tick that was crossed
/// keeps the liquidity of its record.
pub proof fn lemma_iteration_keeps_account(
    state: SwapState,
    env: SwapEnv,
    registry: TickRegistry,
    positions: Seq<Position>,
)
    requires
        spec_state_wf(state, env),
        spec_ticks_accounted(registry, positions),
        state.liquidity == spec_active_liquidity(positions, state.tick as int),
        spec_swap_iteration(state, env, registry) is Ok,
    ensures
        ({
            let it = spec_swap_iteration(state, env, registry).unwrap();
            &&& spec_state_wf(it.state, env)
            &&& it.state.liquidity == spec_active_liquidity(positions, it.state.tick as int)
            &&& it.crossed is Some ==> spec_crossing_keeps_liquidity(
                registry,
                it.crossed.unwrap(),
            )
        }),
{
    reveal(spec_swap_iteration);
    let tick = state.tick as int;
    let next = registry.spec_next_initialized(tick, env.a_to_b);
    lemma_next_initialized_is_nearest(registry, tick, env.a_to_b);
    let target = spec_step_target(next, env);
    lemma_step_moves_toward_target(
        state.sqrt_price,
        target,
        state.liquidity,
        state.remaining,
        env.fee_rate,
        env.exact_in,
        env.a_to_b,
    );
    let step = spec_swap_step(
        state.sqrt_price,
        target,
        state.liquidity,
        state.remaining,
        env.fee_rate,
        env.exact_in,
        env.a_to_b,
    ).unwrap();
    let booked = spec_book_step(state, step, env).unwrap();
    lemma_sqrt_price_never_falls(0, MAX_TICK_INDEX as int);
    lemma_sqrt_price_step_never_falls(MAX_TICK_INDEX as int);
    if next is Some {
        let t = next.unwrap();
        assert(registry.spec_is_initialized(t));
        lemma_sqrt_price_bounds(t);
    }
    if next is Some && booked.sqrt_price == spec_sqrt_price_at_tick(next.unwrap()) {
        let t = next.unwrap();
        lemma_crossing_keeps_account(state.liquidity, tick, t, env.a_to_b, registry, positions);
        lemma_sqrt_price_step_never_falls(t - 1);
        lemma_sqrt_price_step_never_falls(t);
    } else if booked.sqrt_price != state.sqrt_price {
        lemma_price_has_tick(booked.sqrt_price as int);
        let after = spec_tick_of_price(booked.sqrt_price as int);
        lemma_sqrt_price_step_never_falls(after);
        lemma_stop_keeps_account(
            state.sqrt_price,
            tick,
            booked.sqrt_price,
            target,
            next,
            env.a_to_b,
            registry,
            positions,
        );
    }
}

/// A swap from a state on keeps the account: at its end, the active
/// liquidity is that of the positions whose range holds the tick that
/// the price stands in, and every tick that was crossed keeps the
/// liquidity of its record.
pub proof fn lemma_run_keeps_account(
    state: SwapState,
    crossed: Seq<CrossedTick>,
    env: SwapEnv,
    registry: TickRegistry,
    positions: Seq<Position>,
)
    requires
        spec_state_wf(state, env),
        spec_ticks_accounted(registry, positions),
        state.liquidity == spec_active_liquidity(positions, state.tick as int),
        spec_crossings_keep_liquidity(registry, crossed),
        spec_swap_run(state, crossed, env, registry) is Ok,
    ensures
        ({
            let end = spec_swap_run(state, crossed, env, registry).unwrap();
            &&& spec_state_wf(end.0, env)
            &&& end.0.liquidity == spec_active_liquidity(positions, end.0.tick as int)
            &&& spec_crossings_keep_liquidity(registry, end.1)
        }),
    decreases spec_swap_measure(state.tick as int, env.a_to_b),
{
    lemma_swap_run_unfolds(state, crossed, env, registry);
    lemma_iteration_keeps_account(state, env, registry, positions);
    let it = spec_swap_iteration(state, env, registry).unwrap();
    let all = if it.crossed is Some {
        crossed.push(it.crossed.unwrap())
    } else {
        crossed
    };
    assert(spec_crossings_keep_liquidity(registry, all)) by {
        assert forall|j: int| 0 <= j < all.len() implies spec_crossing_keeps_liquidity(
            registry,
            #[trigger] all[j],
        ) by {
            if j < crossed.len() {
                assert(all[j] == crossed[j]);
            }
        }
    }
    if !(it.done || !(0 <= spec_swap_measure(it.state.tick as int, env.a_to_b)
        < spec_swap_measure(state.tick as int, env.a_to_b))) {
        lemma_run_keeps_account(it.state, all, env, registry, positions);
    }
}

/// With every crossed tick written over its record, every tick still
/// holds what the positions put on it.
pub proof fn lemma_ticks_accounted_after(
    registry: TickRegistry,
    crossed: Seq<CrossedTick>,
    positions: Seq<Position>,
    t: int,
)
    requires
        spec_ticks_accounted(registry, positions),
        spec_crossings_keep_liquidity(registry, crossed),
    ensures
        spec_tick_accounted(spec_tick_after(registry, crossed, t), positions, t),
    decreases crossed.len(),
{
    assert(spec_tick_accounted(registry.spec_tick_at(t), positions, t));
    if crossed.len() > 0 {
        let last = crossed.last();
        assert(last == crossed[crossed.len() - 1]);
        assert(spec_crossing_keeps_liquidity(registry, last));
        if last.tick_index != t {
            let rest = crossed.drop_last();
            assert forall|j: int| 0 <= j < rest.len() implies spec_crossing_keeps_liquidity(
                registry,
                #[trigger] rest[j],
            ) by {
                assert(rest[j] == crossed[j]);
            }
            lemma_ticks_accounted_after(registry, rest, positions, t);
        }
    }
}

/// A swap keeps the account: after it, the active liquidity of the pool
/// is again the liquidity of the positions whose range holds the current
/// tick, and every tick holds again what the positions put on it.
pub proof fn lemma_swap_keeps_account(
    pool: Pool,
    registry: TickRegistry,
    registry_after: TickRegistry,
    positions: Seq<Position>,
    amount: u64,
    sqrt_price_limit: u128,
    exact_in: bool,
    a_to_b: bool,
    timestamp: u64,
)
    requires
        pool.spec_wf(),
        spec_liquidity_accounted(pool, registry, positions),
        spec_swap(pool, registry, amount, sqrt_price_limit, exact_in, a_to_b, timestamp) is Ok,
        forall|u: int| #[trigger]
            registry_after.spec_tick_at(u) == spec_tick_after(
                registry,
                spec_swap(
                    pool,
                    registry,
                    amount,
                    sqrt_price_limit,
                    exact_in,
                    a_to_b,
                    timestamp,
                ).unwrap().crossed,
                u,
            ),
    ensures
        spec_liquidity_accounted(
            spec_swap(
                pool,
                registry,
                amount,
                sqrt_price_limit,
                exact_in,
                a_to_b,
                timestamp,
            ).unwrap().pool,
            registry_after,
            positions,
        ),
{
    let plan = spec_swap(
        pool,
        registry,
        amount,
        sqrt_price_limit,
        exact_in,
        a_to_b,
        timestamp,
    ).unwrap();
    let rewards = spec_next_reward_infos(pool.reward_infos, pool.liquidity, timestamp).unwrap();
    let env = spec_swap_env(pool, spec_growths_of(rewards), sqrt_price_limit, exact_in, a_to_b);
    let start = spec_swap_start(pool, amount, a_to_b);
    assert(spec_crossings_keep_liquidity(registry, Seq::<CrossedTick>::empty()));
    lemma_run_keeps_account(start, Seq::empty(), env, registry, positions);
    assert forall|t: int| #[trigger]
        spec_tick_accounted(registry_after.spec_tick_at(t), positions, t) by {
        lemma_ticks_accounted_after(registry, plan.crossed, positions, t);
    }
}

} // verus!
