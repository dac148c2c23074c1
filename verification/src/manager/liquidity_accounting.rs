use vstd::prelude::*;
use crate::manager::liquidity_manager::{
    lemma_apply_liquidity_keeps_form, spec_apply_liquidity, spec_registry_holds, ModifyOutcome,
};
use crate::manager::tick_registry::TickRegistry;
use crate::state::pool::Pool;
use crate::state::position::Position;
use crate::state::tick::Tick;

verus! {

/// What a position adds to the active liquidity at a tick: its liquidity
/// where its range holds the tick, and nothing elsewhere.
pub open spec fn spec_active_part(position: Position, tick: int) -> int {
    if position.spec_in_range(tick) {
        position.liquidity as int
    } else {
        0
    }
}

/// What a position adds to the net liquidity of a tick: its liquidity on
/// its lower bound, and its liquidity taken off on its upper bound.
pub open spec fn spec_net_part(position: Position, tick: int) -> int {
    (if position.tick_lower_index == tick {
        position.liquidity as int
    } else {
        0
    }) - (if position.tick_upper_index == tick {
        position.liquidity as int
    } else {
        0
    })
}

/// What a position adds to the gross liquidity of a tick: its liquidity on
/// each of its bounds.
pub open spec fn spec_gross_part(position: Position, tick: int) -> int {
    (if position.tick_lower_index == tick {
        position.liquidity as int
    } else {
        0
    }) + (if position.tick_upper_index == tick {
        position.liquidity as int
    } else {
        0
    })
}

/// The sum of what each position of a list adds.
pub open spec fn spec_sum(positions: Seq<Position>, part: spec_fn(Position) -> int) -> int
    decreases positions.len(),
{
    if positions.len() == 0 {
        0
    } else {
        spec_sum(positions.drop_last(), part) + part(positions.last())
    }
}

/// The liquidity of the positions whose range holds a tick.
pub open spec fn spec_active_liquidity(positions: Seq<Position>, tick: int) -> int {
    spec_sum(positions, |p: Position| spec_active_part(p, tick))
}

/// The net liquidity that the positions put on a tick.
pub open spec fn spec_net_liquidity(positions: Seq<Position>, tick: int) -> int {
    spec_sum(positions, |p: Position| spec_net_part(p, tick))
}

/// The gross liquidity that the positions put on a tick.
pub open spec fn spec_gross_liquidity(positions: Seq<Position>, tick: int) -> int {
    spec_sum(positions, |p: Position| spec_gross_part(p, tick))
}

/// Every position of the list has a proper range.
pub open spec fn spec_ranges_proper(positions: Seq<Position>) -> bool {
    forall|i: int|
        0 <= i < positions.len() ==> (#[trigger] positions[i]).tick_lower_index
            < positions[i].tick_upper_index
}

/// The pool and its ticks account for the open positions: the active
/// liquidity of the pool is the liquidity of the positions whose range
/// holds the current tick, and every tick holds the net and the gross
/// liquidity that the positions put on it. A tick without a record bounds
/// no liquidity.
pub open spec fn spec_liquidity_accounted(
    pool: Pool,
    registry: TickRegistry,
    positions: Seq<Position>,
) -> bool {
    &&& spec_ranges_proper(positions)
    &&& pool.liquidity == spec_active_liquidity(positions, pool.tick_current_index as int)
    &&& forall|t: int| #[trigger] spec_tick_accounted(registry.spec_tick_at(t), positions, t)
}

/// The record of one tick accounts for the positions.
pub open spec fn spec_tick_accounted(record: Option<Tick>, positions: Seq<Position>, t: int) -> bool {
    match record {
        Some(tick) => {
            &&& tick.spec_wf()
            &&& tick.liquidity_gross == spec_gross_liquidity(positions, t)
            &&& tick.liquidity_net == spec_net_liquidity(positions, t)
        },
        None => spec_gross_liquidity(positions, t) == 0,
    }
}

/// Changing one position of a list changes the sum by what the position
/// adds after the change, less what it added before.
pub proof fn lemma_sum_after_update(
    positions: Seq<Position>,
    part: spec_fn(Position) -> int,
    i: int,
    changed: Position,
)
    requires
        0 <= i < positions.len(),
    ensures
        spec_sum(positions.update(i, changed), part) == spec_sum(positions, part) - part(
            positions[i],
        ) + part(changed),
    decreases positions.len(),
{
    let after = positions.update(i, changed);
    if i == positions.len() - 1 {
        assert(after.drop_last() =~= positions.drop_last());
    } else {
        assert(after.drop_last() =~= positions.drop_last().update(i, changed));
        lemma_sum_after_update(positions.drop_last(), part, i, changed);
    }
}

/// Where no liquidity is bounded by a tick, none is put on it net.
pub proof fn lemma_gross_zero_means_net_zero(positions: Seq<Position>, t: int)
    ensures
        0 <= spec_gross_liquidity(positions, t),
        -spec_gross_liquidity(positions, t) <= spec_net_liquidity(positions, t)
            <= spec_gross_liquidity(positions, t),
    decreases positions.len(),
{
    if positions.len() > 0 {
        lemma_gross_zero_means_net_zero(positions.drop_last(), t);
    }
}

/// From a tick to the tick below it, the liquidity of the positions in
/// range falls by the net liquidity that they put on the tick.
pub proof fn lemma_active_steps_by_net(positions: Seq<Position>, t: int)
    requires
        spec_ranges_proper(positions),
    ensures
        spec_active_liquidity(positions, t - 1) == spec_active_liquidity(positions, t)
            - spec_net_liquidity(positions, t),
    decreases positions.len(),
{
    if positions.len() > 0 {
        let rest = positions.drop_last();
        assert forall|i: int| 0 <= i < rest.len() implies (#[trigger] rest[i]).tick_lower_index
            < rest[i].tick_upper_index by {
            assert(rest[i] == positions[i]);
        }
        lemma_active_steps_by_net(rest, t);
        let p = positions.last();
        assert(p == positions[positions.len() - 1]);
    }
}

/// Between two ticks with no liquidity bounded on the way, the liquidity
/// of the positions in range is the same.
pub proof fn lemma_active_constant_between(positions: Seq<Position>, a: int, b: int)
    requires
        spec_ranges_proper(positions),
        a <= b,
        forall|u: int| a < u <= b ==> #[trigger] spec_gross_liquidity(positions, u) == 0,
    ensures
        spec_active_liquidity(positions, a) == spec_active_liquidity(positions, b),
    decreases b - a,
{
    if a < b {
        lemma_active_constant_between(positions, a, b - 1);
        lemma_active_steps_by_net(positions, b);
        assert(spec_gross_liquidity(positions, b) == 0);
        lemma_gross_zero_means_net_zero(positions, b);
    }
}

/// What a change of liquidity by `delta` writes, as far as the account of
/// liquidity goes: the position keeps its range and its liquidity moves
/// by the change; the active liquidity of the pool moves by the change
/// where the range holds the current tick; the gross liquidity of both
/// boundary ticks moves by the change, and their net liquidity by the
/// change on the lower bound and against it on the upper bound, with a
/// tick that bounds nothing any more left empty.
pub open spec fn spec_is_change_of(
    outcome: ModifyOutcome,
    pool: Pool,
    position: Position,
    lower: Tick,
    upper: Tick,
    delta: i128,
) -> bool {
    &&& outcome.position.tick_lower_index == position.tick_lower_index
    &&& outcome.position.tick_upper_index == position.tick_upper_index
    &&& outcome.position.liquidity == position.liquidity + delta
    &&& outcome.pool.tick_current_index == pool.tick_current_index
    &&& outcome.pool.liquidity == pool.liquidity + (if position.spec_in_range(
        pool.tick_current_index as int,
    ) {
        delta as int
    } else {
        0
    })
    &&& spec_tick_moved_by(outcome.tick_lower, lower, delta as int, delta as int)
    &&& spec_tick_moved_by(outcome.tick_upper, upper, delta as int, -delta)
}

/// The record of a tick after its gross liquidity moved by `gross` and its
/// net liquidity by `net`: well formed, and empty where it bounds nothing
/// any more.
pub open spec fn spec_tick_moved_by(after: Tick, before: Tick, gross: int, net: int) -> bool {
    &&& after.spec_wf()
    &&& after.liquidity_gross == before.liquidity_gross + gross
    &&& after.liquidity_gross > 0 ==> after.liquidity_net == before.liquidity_net + net
    &&& after.liquidity_gross == 0 ==> after.liquidity_net == 0
}

/// What `spec_apply_liquidity` writes is a change in the sense of
/// `spec_is_change_of`.
pub proof fn lemma_outcome_is_change(
    pool: Pool,
    position: Position,
    lower: Tick,
    upper: Tick,
    delta: i128,
    timestamp: u64,
)
    requires
        lower.spec_wf(),
        upper.spec_wf(),
        spec_apply_liquidity(pool, position, Some(lower), Some(upper), delta, timestamp) is Ok,
    ensures
        spec_is_change_of(
            spec_apply_liquidity(
                pool,
                position,
                Some(lower),
                Some(upper),
                delta,
                timestamp,
            ).unwrap(),
            pool,
            position,
            lower,
            upper,
            delta,
        ),
{
    lemma_apply_liquidity_keeps_form(pool, position, Some(lower), Some(upper), delta, timestamp);
}

/// The record of one tick accounts for the positions after one of them
/// has changed, where the record has moved by what the change puts on the
/// tick.
proof fn lemma_tick_account_after(
    before: Option<Tick>,
    after: Option<Tick>,
    positions: Seq<Position>,
    i: int,
    changed: Position,
    t: int,
    delta: int,
)
    requires
        0 <= i < positions.len(),
        spec_tick_accounted(before, positions, t),
        positions[i].tick_lower_index < positions[i].tick_upper_index,
        changed.tick_lower_index == positions[i].tick_lower_index,
        changed.tick_upper_index == positions[i].tick_upper_index,
        changed.liquidity == positions[i].liquidity + delta,
        t == positions[i].tick_lower_index ==> before is Some && after is Some
            && spec_tick_moved_by(after.unwrap(), before.unwrap(), delta, delta),
        t == positions[i].tick_upper_index ==> before is Some && after is Some
            && spec_tick_moved_by(after.unwrap(), before.unwrap(), delta, -delta),
        t != positions[i].tick_lower_index && t != positions[i].tick_upper_index ==> after
            == before,
    ensures
        spec_tick_accounted(after, positions.update(i, changed), t),
{
    lemma_sum_after_update(positions, |p: Position| spec_gross_part(p, t), i, changed);
    lemma_sum_after_update(positions, |p: Position| spec_net_part(p, t), i, changed);
    lemma_gross_zero_means_net_zero(positions.update(i, changed), t);
}

/// A change of the liquidity of one of the open positions keeps the
/// account: after it, the active liquidity of the pool is again the
/// liquidity of the positions in range, and every tick holds again what
/// the positions put on it.
pub proof fn lemma_change_keeps_account(
    pool: Pool,
    registry: TickRegistry,
    registry_after: TickRegistry,
    positions: Seq<Position>,
    i: int,
    delta: i128,
    outcome: ModifyOutcome,
)
    requires
        spec_liquidity_accounted(pool, registry, positions),
        0 <= i < positions.len(),
        registry.spec_tick_at(positions[i].tick_lower_index as int) is Some,
        registry.spec_tick_at(positions[i].tick_upper_index as int) is Some,
        spec_is_change_of(
            outcome,
            pool,
            positions[i],
            registry.spec_tick_at(positions[i].tick_lower_index as int).unwrap(),
            registry.spec_tick_at(positions[i].tick_upper_index as int).unwrap(),
            delta,
        ),
        spec_registry_holds(&registry_after, &registry, positions[i], outcome),
    ensures
        spec_liquidity_accounted(outcome.pool, registry_after, positions.update(i, outcome.position)),
{
    let position = positions[i];
    let after = positions.update(i, outcome.position);
    let li = position.tick_lower_index as int;
    let ui = position.tick_upper_index as int;
    let cur = pool.tick_current_index as int;
    assert forall|j: int| 0 <= j < after.len() implies (#[trigger] after[j]).tick_lower_index
        < after[j].tick_upper_index by {
        if j != i {
            assert(after[j] == positions[j]);
        }
    }
    lemma_sum_after_update(
        positions,
        |p: Position| spec_active_part(p, cur),
        i,
        outcome.position,
    );
    assert forall|t: int| #[trigger]
        spec_tick_accounted(registry_after.spec_tick_at(t), after, t) by {
        assert(spec_tick_accounted(registry.spec_tick_at(t), positions, t));
        lemma_tick_account_after(
            registry.spec_tick_at(t),
            registry_after.spec_tick_at(t),
            positions,
            i,
            outcome.position,
            t,
            delta as int,
        );
    }
}

/// Taking one position off a list takes off the sum what the position
/// added.
pub proof fn lemma_sum_after_remove(
    positions: Seq<Position>,
    part: spec_fn(Position) -> int,
    i: int,
)
    requires
        0 <= i < positions.len(),
    ensures
        spec_sum(positions.remove(i), part) == spec_sum(positions, part) - part(positions[i]),
    decreases positions.len(),
{
    let after = positions.remove(i);
    if i == positions.len() - 1 {
        assert(after =~= positions.drop_last());
    } else {
        assert(after.drop_last() =~= positions.drop_last().remove(i));
        assert(after.last() == positions.last());
        lemma_sum_after_remove(positions.drop_last(), part, i);
    }
}

/// A pool without liquidity, whose ticks are all empty, accounts for no
/// positions at all: that is how every pool starts.
pub proof fn lemma_new_pool_is_accounted(pool: Pool, registry: TickRegistry)
    requires
        pool.liquidity == 0,
        forall|t: int|
            (#[trigger] registry.spec_tick_at(t)) is Some ==> registry.spec_tick_at(t).unwrap()
                == Tick::spec_empty(),
    ensures
        spec_liquidity_accounted(pool, registry, Seq::<Position>::empty()),
{
    let none = Seq::<Position>::empty();
    assert forall|t: int| #[trigger]
        spec_tick_accounted(registry.spec_tick_at(t), none, t) by {
        if registry.spec_tick_at(t) is Some {
            assert(registry.spec_tick_at(t).unwrap() == Tick::spec_empty());
        }
    }
}

/// Opening a position keeps the account: a position without liquidity
/// over a proper range adds nothing to any sum.
pub proof fn lemma_open_keeps_account(
    pool: Pool,
    registry: TickRegistry,
    positions: Seq<Position>,
    opened: Position,
)
    requires
        spec_liquidity_accounted(pool, registry, positions),
        opened.liquidity == 0,
        opened.tick_lower_index < opened.tick_upper_index,
    ensures
        spec_liquidity_accounted(pool, registry, positions.push(opened)),
{
    let after = positions.push(opened);
    assert(after.drop_last() =~= positions);
    assert forall|j: int| 0 <= j < after.len() implies (#[trigger] after[j]).tick_lower_index
        < after[j].tick_upper_index by {
        if j < positions.len() {
            assert(after[j] == positions[j]);
        }
    }
    assert forall|t: int| #[trigger]
        spec_tick_accounted(registry.spec_tick_at(t), after, t) by {
        assert(spec_tick_accounted(registry.spec_tick_at(t), positions, t));
    }
}

/// Closing a position keeps the account: a position without liquidity
/// leaves every sum as it is when it goes.
pub proof fn lemma_close_keeps_account(
    pool: Pool,
    registry: TickRegistry,
    positions: Seq<Position>,
    i: int,
)
    requires
        spec_liquidity_accounted(pool, registry, positions),
        0 <= i < positions.len(),
        positions[i].liquidity == 0,
    ensures
        spec_liquidity_accounted(pool, registry, positions.remove(i)),
{
    let after = positions.remove(i);
    assert forall|j: int| 0 <= j < after.len() implies (#[trigger] after[j]).tick_lower_index
        < after[j].tick_upper_index by {
        if j < i {
            assert(after[j] == positions[j]);
        } else {
            assert(after[j] == positions[j + 1]);
        }
    }
    lemma_sum_after_remove(
        positions,
        |p: Position| spec_active_part(p, pool.tick_current_index as int),
        i,
    );
    assert forall|t: int| #[trigger]
        spec_tick_accounted(registry.spec_tick_at(t), after, t) by {
        assert(spec_tick_accounted(registry.spec_tick_at(t), positions, t));
        lemma_sum_after_remove(positions, |p: Position| spec_gross_part(p, t), i);
        lemma_sum_after_remove(positions, |p: Position| spec_net_part(p, t), i);
    }
}

} // verus!
