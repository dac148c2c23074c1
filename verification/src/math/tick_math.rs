use vstd::prelude::*;
use vstd::arithmetic::div_mod::{lemma_fundamental_div_mod, lemma_fundamental_div_mod_converse, lemma_mod_bound};
use crate::constants::{MAX_TICK_INDEX, MIN_TICK_INDEX};
use crate::errors::PoolError;

verus! {

/// A tick index within the bounds of the price curve.
pub open spec fn spec_tick_in_bounds(tick_index: int) -> bool {
    MIN_TICK_INDEX <= tick_index <= MAX_TICK_INDEX
}

/// A tick index that a pool of the given spacing can use: within bounds
/// and a multiple of the spacing.
pub open spec fn spec_tick_valid(tick_index: int, tick_spacing: int) -> bool {
    tick_spacing > 0 && tick_index % tick_spacing == 0 && spec_tick_in_bounds(tick_index)
}

/// The greatest multiple of `tick_spacing * array_size` that is not above
/// `tick_index`: floored, so that it is right for negative ticks too.
pub open spec fn spec_tick_array_start_index(
    tick_index: int,
    tick_spacing: int,
    array_size: int,
) -> int
    recommends
        tick_spacing * array_size > 0,
{
    tick_index - tick_index % (tick_spacing * array_size)
}

/// The bit of a 128-bit map that stands for a tick: `tick mod 128`, never
/// negative.
pub open spec fn spec_tick_bit(tick_index: int) -> int {
    tick_index % 128
}

/// Whether bit `bit` of `bitmap` is set.
pub open spec fn spec_bit_is_set(bitmap: u128, bit: u32) -> bool {
    (bitmap >> bit) & 1 == 1
}

/// The remainder of a signed tick by a positive modulus, never negative.
fn floor_mod(tick_index: i32, modulus: u32) -> (r: u32)
    requires
        0 < modulus <= i32::MAX,
    ensures
        r == tick_index as int % modulus as int,
        r < modulus,
{
    proof {
        lemma_mod_bound(tick_index as int, modulus as int);
    }
    if tick_index >= 0 {
        (tick_index as u32) % modulus
    } else {
        let magnitude: u32 = (-(tick_index as i64)) as u32;
        let m: u32 = magnitude % modulus;
        proof {
            let q = magnitude as int / modulus as int;
            lemma_fundamental_div_mod(magnitude as int, modulus as int);
            if m == 0 {
                assert(tick_index as int == (-q) * modulus as int + 0) by (nonlinear_arith)
                    requires
                        magnitude as int == modulus as int * q + 0,
                        tick_index as int == -(magnitude as int),
                ;
                lemma_fundamental_div_mod_converse(tick_index as int, modulus as int, -q, 0);
            } else {
                assert(tick_index as int == (-q - 1) * modulus as int + (modulus as int - m as int))
                    by (nonlinear_arith)
                    requires
                        magnitude as int == modulus as int * q + m as int,
                        tick_index as int == -(magnitude as int),
                ;
                lemma_fundamental_div_mod_converse(
                    tick_index as int,
                    modulus as int,
                    -q - 1,
                    modulus as int - m as int,
                );
            }
        }
        if m == 0 {
            0
        } else {
            modulus - m
        }
    }
}

/// A multiple of `n` with `t` less than `n` above it is `t` floor-aligned.
pub proof fn lemma_align_unique(a: int, t: int, n: int)
    requires
        n > 0,
        a % n == 0,
        a <= t < a + n,
    ensures
        t % n == t - a,
        t - t % n == a,
{
    lemma_fundamental_div_mod(a, n);
    let q = a / n;
    assert(t == q * n + (t - a)) by (nonlinear_arith)
        requires
            a == n * q + 0,
    ;
    lemma_fundamental_div_mod_converse(t, n, q, t - a);
}

/// Between two neighbouring multiples of `s` there is no multiple of `s`.
pub proof fn lemma_no_multiple_between(a: int, u: int, s: int)
    requires
        s > 0,
        a % s == 0,
        a < u < a + s,
    ensures
        u % s != 0,
{
    lemma_align_unique(a, u, s);
}

/// A multiple of `s * n` is a multiple of `s`, and so is what lies a
/// multiple of `s` further on.
pub proof fn lemma_multiple_of_product(a: int, s: int, n: int, k: int)
    requires
        s > 0,
        n > 0,
        a % (s * n) == 0,
    ensures
        s * n > 0,
        a % s == 0,
        (a + k * s) % s == 0,
        (a + s * n) % (s * n) == 0,
        (a - s * n) % (s * n) == 0,
{
    assert(s * n > 0) by (nonlinear_arith)
        requires
            s > 0,
            n > 0,
    ;
    lemma_fundamental_div_mod(a, s * n);
    let q = a / (s * n);
    assert(a == (n * q) * s + 0) by (nonlinear_arith)
        requires
            a == (s * n) * q + 0,
    ;
    lemma_fundamental_div_mod_converse(a, s, n * q, 0);
    assert(a + k * s == (n * q + k) * s + 0) by (nonlinear_arith)
        requires
            a == (n * q) * s + 0,
    ;
    lemma_fundamental_div_mod_converse(a + k * s, s, n * q + k, 0);
    assert(a + s * n == (q + 1) * (s * n) + 0) by (nonlinear_arith)
        requires
            a == (s * n) * q + 0,
    ;
    lemma_fundamental_div_mod_converse(a + s * n, s * n, q + 1, 0);
    assert(a - s * n == (q - 1) * (s * n) + 0) by (nonlinear_arith)
        requires
            a == (s * n) * q + 0,
    ;
    lemma_fundamental_div_mod_converse(a - s * n, s * n, q - 1, 0);
}

/// A multiple of `s` that lies less than `n` steps of `s` above another
/// stands at a whole offset below `n` from it.
pub proof fn lemma_offset_in_array(a: int, t: int, s: int, n: int)
    requires
        s > 0,
        n > 0,
        a % s == 0,
        t % s == 0,
        a <= t < a + s * n,
    ensures
        0 <= (t - a) / s < n,
        a + ((t - a) / s) * s == t,
{
    lemma_fundamental_div_mod(a, s);
    lemma_fundamental_div_mod(t, s);
    let qa = a / s;
    let qt = t / s;
    assert(t - a == (qt - qa) * s + 0) by (nonlinear_arith)
        requires
            a == s * qa + 0,
            t == s * qt + 0,
    ;
    assert(0 <= qt - qa < n) by (nonlinear_arith)
        requires
            t - a == (qt - qa) * s,
            0 <= t - a < s * n,
            s > 0,
    ;
    assert(s * (qt - qa) == (qt - qa) * s) by (nonlinear_arith);
    lemma_fundamental_div_mod_converse(t - a, s, qt - qa, 0);
}

/// Checks that a tick index lies within the bounds of the price curve.
pub fn check_tick_in_bounds(tick_index: i32) -> (r: Result<(), PoolError>)
    ensures
        spec_tick_in_bounds(tick_index as int) ==> r == Ok::<(), PoolError>(()),
        !spec_tick_in_bounds(tick_index as int) ==> r == Err::<(), PoolError>(
            PoolError::InvalidTickIndex,
        ),
{
    if tick_index > MAX_TICK_INDEX || tick_index < MIN_TICK_INDEX {
        return Err(PoolError::InvalidTickIndex);
    }
    Ok(())
}

/// Checks that a tick index can be used in a pool of the given spacing: it
/// is a multiple of the spacing and lies within bounds.
///
/// A spacing of zero has no multiples to offer and is refused as such.
pub fn validate_tick_index(tick_index: i32, tick_spacing: u16) -> (r: Result<(), PoolError>)
    ensures
        tick_spacing == 0 ==> r == Err::<(), PoolError>(PoolError::InvalidTickSpacing),
        spec_tick_valid(tick_index as int, tick_spacing as int) ==> r == Ok::<(), PoolError>(()),
        tick_spacing != 0 && !spec_tick_valid(tick_index as int, tick_spacing as int) ==> r
            == Err::<(), PoolError>(PoolError::InvalidTickIndex),
{
    if tick_spacing == 0 {
        return Err(PoolError::InvalidTickSpacing);
    }
    if floor_mod(tick_index, tick_spacing as u32) != 0 {
        return Err(PoolError::InvalidTickIndex);
    }
    check_tick_in_bounds(tick_index)
}

/// Finds the start index of the tick array that covers `tick_index`: the
/// tick index floor-aligned to a multiple of `tick_spacing * array_size`.
///
/// The span of one array must be positive and fit a tick index, and the
/// aligned index must not fall below the smallest 32-bit integer.
pub fn get_tick_array_start_index(tick_index: i32, tick_spacing: u16, array_size: usize) -> (r:
    i32)
    requires
        tick_spacing > 0,
        array_size > 0,
        tick_spacing * array_size <= i32::MAX,
        tick_index - tick_spacing * array_size >= i32::MIN,
    ensures
        r == spec_tick_array_start_index(tick_index as int, tick_spacing as int, array_size as int),
        r <= tick_index < r + tick_spacing * array_size,
        r as int % (tick_spacing * array_size) == 0,
{
    assert(1 <= tick_spacing * array_size) by (nonlinear_arith)
        requires
            tick_spacing >= 1,
            array_size >= 1,
    ;
    assert(array_size <= i32::MAX) by (nonlinear_arith)
        requires
            tick_spacing >= 1,
            array_size >= 1,
            tick_spacing * array_size <= i32::MAX,
    ;
    assert(array_size * tick_spacing == tick_spacing * array_size) by (nonlinear_arith);
    let ticks_in_array: u32 = (array_size as u32) * (tick_spacing as u32);
    let offset: u32 = floor_mod(tick_index, ticks_in_array);
    proof {
        let n = ticks_in_array as int;
        let t = tick_index as int;
        lemma_fundamental_div_mod(t, n);
        lemma_fundamental_div_mod_converse(t - t % n, n, t / n, 0);
    }
    ((tick_index as i64) - (offset as i64)) as i32
}

/// Tests whether the bit that stands for `tick_index` is set in a 128-bit
/// map of initialized ticks. The bit is `tick_index mod 128`.
pub fn is_tick_initialized(tick_bitmap: u128, tick_index: i32) -> (r: bool)
    ensures
        r == spec_bit_is_set(tick_bitmap, spec_tick_bit(tick_index as int) as u32),
{
    let bit_pos: u32 = floor_mod(tick_index, 128);
    let mask: u128 = 1u128 << bit_pos;
    assert(((tick_bitmap & (1u128 << bit_pos)) != 0) == ((tick_bitmap >> bit_pos) & 1 == 1))
        by (bit_vector)
        requires
            bit_pos < 128,
    ;
    (tick_bitmap & mask) != 0
}

/// Returns the map with the bit that stands for `tick_index` set or
/// cleared, and every other bit as it was.
pub fn set_tick_initialized(tick_bitmap: u128, tick_index: i32, initialized: bool) -> (r: u128)
    ensures
        spec_bit_is_set(r, spec_tick_bit(tick_index as int) as u32) == initialized,
        forall|bit: u32|
            bit < 128 && bit != spec_tick_bit(tick_index as int) ==> spec_bit_is_set(r, bit)
                == spec_bit_is_set(tick_bitmap, bit),
{
    let bit_pos: u32 = floor_mod(tick_index, 128);
    let mask: u128 = 1u128 << bit_pos;
    if initialized {
        let r: u128 = tick_bitmap | mask;
        assert(((tick_bitmap | (1u128 << bit_pos)) >> bit_pos) & 1 == 1) by (bit_vector)
            requires
                bit_pos < 128,
        ;
        assert forall|bit: u32| bit < 128 && bit != bit_pos implies spec_bit_is_set(r, bit)
            == spec_bit_is_set(tick_bitmap, bit) by {
            assert((((tick_bitmap | (1u128 << bit_pos)) >> bit) & 1) == ((tick_bitmap >> bit) & 1))
                by (bit_vector)
                requires
                    bit < 128,
                    bit_pos < 128,
                    bit != bit_pos,
            ;
        }
        r
    } else {
        let r: u128 = tick_bitmap & !mask;
        assert(((tick_bitmap & !(1u128 << bit_pos)) >> bit_pos) & 1 == 0) by (bit_vector)
            requires
                bit_pos < 128,
        ;
        assert forall|bit: u32| bit < 128 && bit != bit_pos implies spec_bit_is_set(r, bit)
            == spec_bit_is_set(tick_bitmap, bit) by {
            assert((((tick_bitmap & !(1u128 << bit_pos)) >> bit) & 1) == ((tick_bitmap >> bit)
                & 1)) by (bit_vector)
                requires
                    bit < 128,
                    bit_pos < 128,
                    bit != bit_pos,
            ;
        }
        r
    }
}

} // verus!
