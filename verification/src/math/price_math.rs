use vstd::prelude::*;
use crate::constants::{MAX_SQRT_PRICE, MAX_TICK_INDEX, MIN_SQRT_PRICE, MIN_TICK_INDEX};
use crate::errors::PoolError;
use crate::math::tick_math::spec_tick_in_bounds;

verus! {

/// The square-root price one, in Q64.64: the price at tick zero.
pub const SQRT_PRICE_ONE: u128 = 0x1_0000_0000_0000_0000;

/// The square-root price one tick above `p`.
///
/// One tick multiplies the price by 1.0001, so its square root by
/// `1 + 1/20000 - 1/800000000` to within one part in ten to the thirteen.
pub open spec fn spec_step_up(p: int) -> int {
    p + p / 20000 - p / 800000000
}

/// The square-root price one tick below `p`: `p` times
/// `1 - 1/20000 + 1/266666667`, the inverse of the step up to within four
/// parts in ten to the thirteen.
pub open spec fn spec_step_down(p: int) -> int {
    p - p / 20000 + p / 266666667
}

/// The square-root price at a tick, in Q64.64: one at tick zero, and from
/// there one step per tick in either direction.
pub open spec fn spec_sqrt_price_at_tick(tick: int) -> int
    decreases
        (if tick >= 0 {
            tick
        } else {
            -tick
        }),
{
    if tick == 0 {
        0x1_0000_0000_0000_0000
    } else if tick > 0 {
        spec_step_up(spec_sqrt_price_at_tick(tick - 1))
    } else {
        spec_step_down(spec_sqrt_price_at_tick(tick + 1))
    }
}

/// `tick` is the tick of `sqrt_price`: the greatest tick within bounds whose
/// price is not above `sqrt_price`. A price below the price of the lowest
/// tick stands in the tick just below the lowest, which has no price of
/// its own.
pub open spec fn spec_is_tick_of_price(sqrt_price: int, tick: int) -> bool {
    &&& MIN_TICK_INDEX - 1 <= tick <= MAX_TICK_INDEX
    &&& spec_price_has_tick(sqrt_price)
    &&& tick >= MIN_TICK_INDEX ==> spec_sqrt_price_at_tick(tick) <= sqrt_price
    &&& tick < MAX_TICK_INDEX ==> sqrt_price < spec_sqrt_price_at_tick(tick + 1)
}

/// The tick of a square-root price that has one.
pub open spec fn spec_tick_of_price(sqrt_price: int) -> int {
    choose|tick: int| spec_is_tick_of_price(sqrt_price, tick)
}

/// A square-root price that has a tick: at least the smallest price there
/// is, and not above the price of the highest tick.
pub open spec fn spec_price_has_tick(sqrt_price: int) -> bool {
    1 <= sqrt_price <= spec_sqrt_price_at_tick(MAX_TICK_INDEX as int)
}

/// Two to the power `j`.
pub open spec fn spec_two_pow(j: nat) -> int
    decreases j,
{
    if j == 0 {
        1
    } else {
        2 * spec_two_pow((j - 1) as nat)
    }
}

proof fn lemma_two_pow_values()
    ensures
        spec_two_pow(45) == 0x2000_0000_0000,
{
    assert(spec_two_pow(15) == 0x8000) by {
        reveal_with_fuel(spec_two_pow, 16);
    }
    assert(spec_two_pow(30) == 0x4000_0000) by {
        lemma_two_pow_add(15, 15);
    }
    assert(spec_two_pow(45) == 0x2000_0000_0000) by {
        lemma_two_pow_add(30, 15);
    }
}

proof fn lemma_two_pow_positive(a: nat)
    ensures
        spec_two_pow(a) >= 1,
    decreases a,
{
    if a > 0 {
        lemma_two_pow_positive((a - 1) as nat);
    }
}

proof fn lemma_two_pow_add(a: nat, b: nat)
    ensures
        spec_two_pow(a + b) == spec_two_pow(a) * spec_two_pow(b),
    decreases b,
{
    if b == 0 {
        assert(spec_two_pow(a) * 1 == spec_two_pow(a));
    } else {
        lemma_two_pow_add(a, (b - 1) as nat);
        let x = spec_two_pow(a);
        let y = spec_two_pow((b - 1) as nat);
        assert(spec_two_pow(a + b) == 2 * spec_two_pow((a + b - 1) as nat));
        assert(2 * (x * y) == x * (2 * y)) by (nonlinear_arith);
    }
}

/// On the upper half of the curve no price is below one.
proof fn lemma_upper_half_at_least_one(tick: int)
    requires
        0 <= tick,
    ensures
        0x1_0000_0000_0000_0000 <= spec_sqrt_price_at_tick(tick),
    decreases tick,
{
    if tick > 0 {
        lemma_upper_half_at_least_one(tick - 1);
    }
}

/// On the lower half of the curve no price is negative or above one.
proof fn lemma_lower_half_at_most_one(tick: int)
    requires
        tick <= 0,
    ensures
        0 <= spec_sqrt_price_at_tick(tick) <= 0x1_0000_0000_0000_0000,
    decreases -tick,
{
    if tick < 0 {
        lemma_lower_half_at_most_one(tick + 1);
    }
}

/// On the upper half of the curve the price never falls from one tick to the
/// next, and ten thousand ticks at most double it.
proof fn lemma_up_chunk(tick: int, k: int)
    requires
        0 <= tick,
        0 <= k <= 10000,
    ensures
        0x1_0000_0000_0000_0000 <= spec_sqrt_price_at_tick(tick) <= spec_sqrt_price_at_tick(
            tick + k,
        ),
        spec_sqrt_price_at_tick(tick + k) * (20000 - k) <= spec_sqrt_price_at_tick(tick) * 20000,
    decreases k,
{
    if k == 0 {
        lemma_upper_half_at_least_one(tick);
    } else {
        lemma_up_chunk(tick, k - 1);
        let p = spec_sqrt_price_at_tick(tick);
        let u = spec_sqrt_price_at_tick(tick + k - 1);
        let v = spec_sqrt_price_at_tick(tick + k);
        assert(v == spec_step_up(u));
        let q = u / 20000;
        assert(v <= u + q);
        assert(v >= u);
        assert(v * (20000 - k) <= p * 20000) by (nonlinear_arith)
            requires
                v <= u + q,
                q * 20000 <= u,
                0 <= q,
                0 <= u,
                1 <= k <= 10000,
                u * (20000 - (k - 1)) <= p * 20000,
                0 <= v,
        ;
    }
}

/// On the lower half of the curve the price never rises from one tick to the
/// one below, and ten thousand ticks at most halve it.
proof fn lemma_down_chunk(tick: int, k: int)
    requires
        tick <= 0,
        0 <= k <= 10000,
    ensures
        spec_sqrt_price_at_tick(tick) - k * (spec_sqrt_price_at_tick(tick) / 20000)
            <= spec_sqrt_price_at_tick(tick - k) <= spec_sqrt_price_at_tick(tick),
        0 <= spec_sqrt_price_at_tick(tick - k),
        k == 10000 ==> 2 * spec_sqrt_price_at_tick(tick - k) >= spec_sqrt_price_at_tick(tick),
    decreases k,
{
    let p = spec_sqrt_price_at_tick(tick);
    let q = p / 20000;
    lemma_lower_half_at_most_one(tick);
    if k == 0 {
        assert(0 * q == 0);
    } else {
        lemma_down_chunk(tick, k - 1);
        let d = spec_sqrt_price_at_tick(tick - k + 1);
        let e = spec_sqrt_price_at_tick(tick - k);
        assert(e == spec_step_down(d));
        assert(k * q == (k - 1) * q + q) by (nonlinear_arith);
        assert(k * q <= 10000 * q) by (nonlinear_arith)
            requires
                k <= 10000,
                0 <= q,
        ;
        assert((k - 1) * q >= 0) by (nonlinear_arith)
            requires
                k >= 1,
                0 <= q,
        ;
        assert(d >= 0);
        assert(d / 20000 <= q);
        assert(e >= d - d / 20000);
        assert(e <= d);
    }
}

/// Prices at whole multiples of ten thousand ticks, bounded by powers of two.
proof fn lemma_chunk_bounds(j: nat)
    ensures
        spec_sqrt_price_at_tick(10000 * (j as int)) <= 0x1_0000_0000_0000_0000 * spec_two_pow(j),
        spec_sqrt_price_at_tick(-10000 * (j as int)) * spec_two_pow(j) >= 0x1_0000_0000_0000_0000,
        spec_sqrt_price_at_tick(-10000 * (j as int)) >= 0,
    decreases j,
{
    if j == 0 {
    } else {
        let i = (j - 1) as nat;
        lemma_chunk_bounds(i);
        lemma_up_chunk(10000 * (i as int), 10000);
        lemma_down_chunk(-10000 * (i as int), 10000);
        let up0 = spec_sqrt_price_at_tick(10000 * (i as int));
        let up1 = spec_sqrt_price_at_tick(10000 * (j as int));
        let dn0 = spec_sqrt_price_at_tick(-10000 * (i as int));
        let dn1 = spec_sqrt_price_at_tick(-10000 * (j as int));
        let w = spec_two_pow(i);
        lemma_two_pow_positive(i);
        assert(up1 <= 2 * up0);
        assert(2 * dn1 >= dn0);
        assert(0x1_0000_0000_0000_0000 * (2 * w) == 2 * (0x1_0000_0000_0000_0000 * w))
            by (nonlinear_arith);
        assert(dn1 * (2 * w) >= dn0 * w) by (nonlinear_arith)
            requires
                2 * dn1 >= dn0,
                w >= 1,
        ;
    }
}

/// Every price on the curve lies between two to the power 19 and two to
/// the power 109, so that it and one further step fit in 128 bits.
pub proof fn lemma_sqrt_price_bounds(tick: int)
    requires
        spec_tick_in_bounds(tick),
    ensures
        0x8_0000 <= spec_sqrt_price_at_tick(tick) <= 0x2000_0000_0000_0000_0000_0000_0000,
        tick >= 0 ==> spec_sqrt_price_at_tick(tick) >= 0x1_0000_0000_0000_0000,
        tick <= 0 ==> spec_sqrt_price_at_tick(tick) <= 0x1_0000_0000_0000_0000,
{
    lemma_two_pow_values();
    lemma_chunk_bounds(45);
    if tick >= 0 {
        lemma_up_chunk(0, 0);
        lemma_monotone_up(0, tick);
        lemma_monotone_up(tick, 450000);
    } else {
        lemma_monotone_down(tick, 0);
        lemma_monotone_down(-450000, tick);
        let low = spec_sqrt_price_at_tick(-450000);
        assert(low >= 0x8_0000) by (nonlinear_arith)
            requires
                low * 0x2000_0000_0000 >= 0x1_0000_0000_0000_0000,
        ;
    }
}

/// On the upper half the price never falls as the tick rises.
proof fn lemma_monotone_up(a: int, b: int)
    requires
        0 <= a <= b,
    ensures
        0x1_0000_0000_0000_0000 <= spec_sqrt_price_at_tick(a) <= spec_sqrt_price_at_tick(b),
    decreases b - a,
{
    if a == b {
        lemma_up_chunk(a, 0);
    } else {
        lemma_monotone_up(a, b - 1);
        lemma_up_chunk(b - 1, 1);
    }
}

/// On the lower half the price never falls as the tick rises, and is never
/// negative.
proof fn lemma_monotone_down(a: int, b: int)
    requires
        a <= b <= 0,
    ensures
        0 <= spec_sqrt_price_at_tick(a) <= spec_sqrt_price_at_tick(b) <= 0x1_0000_0000_0000_0000,
    decreases b - a,
{
    lemma_lower_half_at_most_one(a);
    lemma_lower_half_at_most_one(b);
    if a < b {
        lemma_monotone_down(a + 1, b);
        lemma_down_chunk(a + 1, 1);
    }
}

/// From any tick to the next the price never falls, within the bounds of
/// the curve and beyond them.
pub proof fn lemma_sqrt_price_step_never_falls(tick: int)
    ensures
        0 <= spec_sqrt_price_at_tick(tick) <= spec_sqrt_price_at_tick(tick + 1),
{
    if tick >= 0 {
        lemma_up_chunk(tick, 1);
    } else {
        lemma_down_chunk(tick + 1, 1);
    }
}

/// The price never falls as the tick rises.
pub proof fn lemma_sqrt_price_never_falls(a: int, b: int)
    requires
        a <= b,
    ensures
        spec_sqrt_price_at_tick(a) <= spec_sqrt_price_at_tick(b),
    decreases b - a,
{
    if a < b {
        lemma_sqrt_price_never_falls(a, b - 1);
        lemma_sqrt_price_step_never_falls(b - 1);
    }
}

/// Every price from the smallest up to the price of the highest tick has a
/// tick.
pub proof fn lemma_price_has_tick(sqrt_price: int)
    requires
        spec_price_has_tick(sqrt_price),
    ensures
        spec_is_tick_of_price(sqrt_price, spec_tick_of_price(sqrt_price)),
{
    if sqrt_price < spec_sqrt_price_at_tick(MIN_TICK_INDEX as int) {
        assert(spec_is_tick_of_price(sqrt_price, MIN_TICK_INDEX - 1));
    } else {
        lemma_tick_exists_from(sqrt_price, MIN_TICK_INDEX as int);
    }
}

/// From a tick whose price is not above the price sought, a tick of that
/// price is found on the way up.
proof fn lemma_tick_exists_from(sqrt_price: int, from: int)
    requires
        spec_tick_in_bounds(from),
        spec_sqrt_price_at_tick(from) <= sqrt_price <= spec_sqrt_price_at_tick(
            MAX_TICK_INDEX as int,
        ),
    ensures
        exists|tick: int| spec_is_tick_of_price(sqrt_price, tick),
    decreases MAX_TICK_INDEX - from,
{
    lemma_sqrt_price_bounds(from);
    if from == MAX_TICK_INDEX {
        assert(spec_is_tick_of_price(sqrt_price, from));
    } else if sqrt_price < spec_sqrt_price_at_tick(from + 1) {
        assert(spec_is_tick_of_price(sqrt_price, from));
    } else {
        lemma_tick_exists_from(sqrt_price, from + 1);
    }
}

/// The price at a tick is strictly below the price at the next tick.
pub proof fn lemma_sqrt_price_step_increases(tick: int)
    requires
        spec_tick_in_bounds(tick),
        spec_tick_in_bounds(tick + 1),
    ensures
        spec_sqrt_price_at_tick(tick) < spec_sqrt_price_at_tick(tick + 1),
{
    lemma_sqrt_price_bounds(tick);
    lemma_sqrt_price_bounds(tick + 1);
    if tick >= 0 {
        let p = spec_sqrt_price_at_tick(tick);
        assert(spec_sqrt_price_at_tick(tick + 1) == spec_step_up(p));
    } else {
        let p = spec_sqrt_price_at_tick(tick + 1);
        assert(spec_sqrt_price_at_tick(tick) == spec_step_down(p));
    }
}

/// The curve is strictly increasing: a lower tick has a lower price.
pub proof fn lemma_sqrt_price_strictly_increasing(a: int, b: int)
    requires
        spec_tick_in_bounds(a),
        spec_tick_in_bounds(b),
        a < b,
    ensures
        spec_sqrt_price_at_tick(a) < spec_sqrt_price_at_tick(b),
    decreases b - a,
{
    lemma_sqrt_price_step_increases(b - 1);
    if a < b - 1 {
        lemma_sqrt_price_strictly_increasing(a, b - 1);
    }
}

/// Converting a tick to its price and back gives the tick: every tick
/// within bounds is the tick of its own price.
pub proof fn lemma_tick_round_trip(tick: int)
    requires
        spec_tick_in_bounds(tick),
    ensures
        spec_is_tick_of_price(spec_sqrt_price_at_tick(tick), tick),
{
    lemma_sqrt_price_bounds(tick);
    if tick < MAX_TICK_INDEX {
        lemma_sqrt_price_step_increases(tick);
        lemma_sqrt_price_strictly_increasing(tick, MAX_TICK_INDEX as int);
    }
}

/// A price has at most one tick.
pub proof fn lemma_tick_of_price_unique(sqrt_price: int, t1: int, t2: int)
    requires
        spec_is_tick_of_price(sqrt_price, t1),
        spec_is_tick_of_price(sqrt_price, t2),
    ensures
        t1 == t2,
{
    if t1 < t2 {
        if t1 + 1 < t2 {
            lemma_sqrt_price_strictly_increasing(t1 + 1, t2);
        }
    } else if t2 < t1 {
        if t2 + 1 < t1 {
            lemma_sqrt_price_strictly_increasing(t2 + 1, t1);
        }
    }
}

/// Converting a price to its tick and back gives a price that is not above
/// the one converted, wherever the tick lies within bounds and so has a
/// price; and the price of the next tick is above the one converted.
pub proof fn lemma_price_round_trip_floors(sqrt_price: int, tick: int)
    requires
        spec_is_tick_of_price(sqrt_price, tick),
    ensures
        spec_tick_in_bounds(tick) ==> spec_sqrt_price_at_tick(tick) <= sqrt_price,
        tick < MAX_TICK_INDEX ==> sqrt_price < spec_sqrt_price_at_tick(tick + 1),
        tick == MIN_TICK_INDEX - 1 <==> sqrt_price < spec_sqrt_price_at_tick(
            MIN_TICK_INDEX as int,
        ),
{
    if MIN_TICK_INDEX < tick {
        lemma_sqrt_price_strictly_increasing(MIN_TICK_INDEX as int, tick);
    }
}

/// Walks the curve from tick zero to a tick within bounds.
fn curve_price(tick_index: i32) -> (price: u128)
    requires
        spec_tick_in_bounds(tick_index as int),
    ensures
        price == spec_sqrt_price_at_tick(tick_index as int),
{
    let mut price: u128 = SQRT_PRICE_ONE;
    let mut i: i32 = 0;
    if tick_index >= 0 {
        while i < tick_index
            invariant
                0 <= i <= tick_index <= MAX_TICK_INDEX,
                price == spec_sqrt_price_at_tick(i as int),
            decreases tick_index - i,
        {
            proof {
                lemma_sqrt_price_bounds(i as int);
                lemma_sqrt_price_bounds(i + 1);
            }
            price = price + price / 20000 - price / 800000000;
            i = i + 1;
        }
    } else {
        while i > tick_index
            invariant
                MIN_TICK_INDEX <= tick_index <= i <= 0,
                price == spec_sqrt_price_at_tick(i as int),
            decreases i - tick_index,
        {
            proof {
                lemma_sqrt_price_bounds(i as int);
                lemma_sqrt_price_bounds(i - 1);
            }
            price = price - price / 20000 + price / 266666667;
            i = i - 1;
        }
    }
    price
}

/// Computes the square-root price at a tick, in Q64.64.
///
/// A tick outside the bounds of the curve is refused.
pub fn tick_to_sqrt_price(tick_index: i32) -> (r: Result<u128, PoolError>)
    ensures
        spec_tick_in_bounds(tick_index as int) ==> r == Ok::<u128, PoolError>(
            spec_sqrt_price_at_tick(tick_index as int) as u128,
        ) && r.unwrap() == spec_sqrt_price_at_tick(tick_index as int),
        !spec_tick_in_bounds(tick_index as int) ==> r == Err::<u128, PoolError>(
            PoolError::InvalidTickIndex,
        ),
{
    if tick_index > MAX_TICK_INDEX || tick_index < MIN_TICK_INDEX {
        return Err(PoolError::InvalidTickIndex);
    }
    proof {
        lemma_sqrt_price_bounds(tick_index as int);
    }
    Ok(curve_price(tick_index))
}

/// Computes the square-root price at a tick within the bounds of the
/// curve or one tick beyond them.
pub fn sqrt_price_near_tick(tick_index: i32) -> (r: u128)
    requires
        MIN_TICK_INDEX - 1 <= tick_index <= MAX_TICK_INDEX + 1,
    ensures
        r == spec_sqrt_price_at_tick(tick_index as int),
{
    if tick_index < MIN_TICK_INDEX {
        proof {
            lemma_sqrt_price_bounds(MIN_TICK_INDEX as int);
            lemma_sqrt_price_step_never_falls(tick_index as int);
        }
        let p: u128 = curve_price(MIN_TICK_INDEX);
        p - p / 20000 + p / 266666667
    } else if tick_index > MAX_TICK_INDEX {
        proof {
            lemma_sqrt_price_bounds(MAX_TICK_INDEX as int);
        }
        let p: u128 = curve_price(MAX_TICK_INDEX);
        p + p / 20000 - p / 800000000
    } else {
        curve_price(tick_index)
    }
}

/// Finds the tick of a square-root price: the greatest tick whose price is
/// not above it, and the tick just below the lowest for a price below the
/// price of the lowest tick.
///
/// A price of zero, and a price above that of the highest tick, is
/// refused. The price of a tick gives that tick back.
pub fn sqrt_price_to_tick(sqrt_price: u128) -> (r: Result<i32, PoolError>)
    ensures
        match r {
            Ok(tick) => spec_is_tick_of_price(sqrt_price as int, tick as int) && tick
                == spec_tick_of_price(sqrt_price as int) && spec_price_has_tick(
                sqrt_price as int,
            ),
            Err(e) => e == PoolError::SqrtPriceOutOfBounds && !spec_price_has_tick(
                sqrt_price as int,
            ),
        },
        forall|tick: int|
            spec_tick_in_bounds(tick) && sqrt_price == #[trigger] spec_sqrt_price_at_tick(tick)
                ==> r == Ok::<i32, PoolError>(tick as i32),
        MIN_SQRT_PRICE <= sqrt_price <= MAX_SQRT_PRICE ==> r is Ok && MIN_TICK_INDEX - 1
            <= r.unwrap() <= -1,
{
    if sqrt_price == 0 {
        proof {
            lemma_sqrt_price_bounds(MIN_TICK_INDEX as int);
            lemma_price_off_curve_has_no_tick(0);
        }
        return Err(PoolError::SqrtPriceOutOfBounds);
    }
    let mut price: u128 = SQRT_PRICE_ONE;
    let mut i: i32 = 0;
    let mut found: bool = false;
    proof {
        lemma_sqrt_price_never_falls(0, MAX_TICK_INDEX as int);
    }
    if sqrt_price >= SQRT_PRICE_ONE {
        // walk up while the next price is still not above the target
        while i < MAX_TICK_INDEX && !found
            invariant
                0 <= i <= MAX_TICK_INDEX,
                price == spec_sqrt_price_at_tick(i as int),
                price <= sqrt_price,
                found ==> i < MAX_TICK_INDEX && sqrt_price < spec_sqrt_price_at_tick(i + 1),
            decreases MAX_TICK_INDEX - i + (if found { 0int } else { 1int }),
        {
            proof {
                lemma_sqrt_price_bounds(i as int);
                lemma_sqrt_price_bounds(i + 1);
            }
            let next: u128 = price + price / 20000 - price / 800000000;
            if next <= sqrt_price {
                price = next;
                i = i + 1;
            } else {
                found = true;
            }
        }
        if !found && price < sqrt_price {
            proof {
                assert(i == MAX_TICK_INDEX);
                lemma_price_off_curve_has_no_tick(sqrt_price as int);
            }
            return Err(PoolError::SqrtPriceOutOfBounds);
        }
    } else {
        // walk down until the price is no longer above the target
        while i > MIN_TICK_INDEX && price > sqrt_price
            invariant
                MIN_TICK_INDEX <= i <= 0,
                price == spec_sqrt_price_at_tick(i as int),
                i < 0 ==> sqrt_price < spec_sqrt_price_at_tick(i + 1),
                i == 0 ==> sqrt_price < price,
            decreases i - MIN_TICK_INDEX,
        {
            proof {
                lemma_sqrt_price_bounds(i as int);
                lemma_sqrt_price_bounds(i - 1);
            }
            price = price - price / 20000 + price / 266666667;
            i = i - 1;
        }
        if price > sqrt_price {
            // below the lowest tick
            i = MIN_TICK_INDEX - 1;
            proof {
                lemma_price_off_curve_has_no_tick(sqrt_price as int);
            }
        }
    }
    proof {
        assert(spec_is_tick_of_price(sqrt_price as int, i as int)) by {
            if MIN_TICK_INDEX <= i < MAX_TICK_INDEX {
                if i + 1 < MAX_TICK_INDEX {
                    lemma_sqrt_price_strictly_increasing(i + 1, MAX_TICK_INDEX as int);
                }
            }
        }
        lemma_tick_of_price_unique(
            sqrt_price as int,
            i as int,
            spec_tick_of_price(sqrt_price as int),
        );
        assert forall|tick: int|
            spec_tick_in_bounds(tick) && sqrt_price == #[trigger] spec_sqrt_price_at_tick(
                tick,
            ) implies tick == i by {
            lemma_tick_round_trip(tick);
            lemma_tick_of_price_unique(sqrt_price as int, tick, i as int);
        }
        if i >= 0 {
            lemma_sqrt_price_never_falls(0, i as int);
        }
    }
    Ok(i)
}

/// A price below that of the lowest tick, or above that of the highest, is
/// the price of no tick.
proof fn lemma_price_off_curve_has_no_tick(sqrt_price: int)
    requires
        sqrt_price < spec_sqrt_price_at_tick(MIN_TICK_INDEX as int) || sqrt_price
            > spec_sqrt_price_at_tick(MAX_TICK_INDEX as int),
    ensures
        forall|tick: int|
            spec_tick_in_bounds(tick) ==> sqrt_price != #[trigger] spec_sqrt_price_at_tick(tick),
{
    assert forall|tick: int| spec_tick_in_bounds(tick) implies sqrt_price
        != #[trigger] spec_sqrt_price_at_tick(tick) by {
        if tick > MIN_TICK_INDEX {
            lemma_sqrt_price_strictly_increasing(MIN_TICK_INDEX as int, tick);
        }
        if tick < MAX_TICK_INDEX {
            lemma_sqrt_price_strictly_increasing(tick, MAX_TICK_INDEX as int);
        }
    }
}

} // verus!
