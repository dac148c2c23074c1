use vstd::prelude::*;
use crate::errors::PoolError;

verus! {

/// `floor(n / d)` of two non-negative integers.
pub open spec fn spec_div_floor(n: int, d: int) -> int
    recommends
        d > 0,
{
    n / d
}

/// `ceil(n / d)` of two non-negative integers.
pub open spec fn spec_div_ceil(n: int, d: int) -> int
    recommends
        d > 0,
{
    if n % d == 0 {
        n / d
    } else {
        n / d + 1
    }
}

/// The lower of two prices.
pub open spec fn spec_lower_price(a: u128, b: u128) -> u128 {
    if a <= b {
        a
    } else {
        b
    }
}

/// The higher of two prices.
pub open spec fn spec_upper_price(a: u128, b: u128) -> u128 {
    if a <= b {
        b
    } else {
        a
    }
}

/// Amount of asset A between two prices `lo < hi`, before the check that it
/// fits in 64 bits: the exact amount
/// `liquidity * 2^64 * (hi - lo) / (lo * hi)`, rounded once, as asked.
pub open spec fn spec_raw_delta_a(lo: u128, hi: u128, liquidity: u128, round_up: bool) -> int
    recommends
        0 < lo < hi,
{
    let x = (liquidity as int * 0x1_0000_0000_0000_0000) * (hi - lo);
    let d = lo as int * hi as int;
    if round_up {
        spec_div_ceil(x, d)
    } else {
        spec_div_floor(x, d)
    }
}

/// A bound on the amount of asset A from the two quotients
/// `liquidity * 2^64 / price`, each rounded apart: from above on the
/// amount rounded up, from below on the amount rounded down.
pub open spec fn spec_outer_delta_a(lo: u128, hi: u128, liquidity: u128, round_up: bool) -> int
    recommends
        0 < lo < hi,
{
    let n = liquidity as int * 0x1_0000_0000_0000_0000;
    if round_up {
        spec_div_ceil(n, lo as int) - spec_div_floor(n, hi as int)
    } else {
        let d = spec_div_floor(n, lo as int) - spec_div_ceil(n, hi as int);
        if d < 0 {
            0
        } else {
            d
        }
    }
}

/// Amount of asset B between two prices `lo <= hi`, before the check that it
/// fits in 64 bits: `liquidity * (hi - lo) / 2^64`, rounded as asked.
pub open spec fn spec_raw_delta_b(lo: u128, hi: u128, liquidity: u128, round_up: bool) -> int
    recommends
        lo <= hi,
{
    let n = (hi - lo) * liquidity as int;
    if round_up {
        spec_div_ceil(n, 0x1_0000_0000_0000_0000)
    } else {
        spec_div_floor(n, 0x1_0000_0000_0000_0000)
    }
}

/// The amount of asset A between two prices without the limit of 64
/// bits: nothing between equal prices, refused for a price of zero or
/// where `liquidity * 2^64` does not fit in 128 bits.
pub open spec fn spec_wide_delta_a(
    sqrt_price_0: u128,
    sqrt_price_1: u128,
    liquidity: u128,
    round_up: bool,
) -> Result<u128, PoolError> {
    let lo = spec_lower_price(sqrt_price_0, sqrt_price_1);
    let hi = spec_upper_price(sqrt_price_0, sqrt_price_1);
    if lo == hi {
        Ok(0)
    } else if lo == 0 {
        Err(PoolError::SqrtPriceOutOfBounds)
    } else if liquidity as int * 0x1_0000_0000_0000_0000 > u128::MAX {
        Err(PoolError::LiquidityOverflow)
    } else {
        Ok(spec_raw_delta_a(lo, hi, liquidity, round_up) as u128)
    }
}

/// The amount of asset B between two prices without the limit of 64
/// bits: refused where `liquidity * (hi - lo)` does not fit in 128 bits.
pub open spec fn spec_wide_delta_b(
    sqrt_price_0: u128,
    sqrt_price_1: u128,
    liquidity: u128,
    round_up: bool,
) -> Result<u128, PoolError> {
    let lo = spec_lower_price(sqrt_price_0, sqrt_price_1);
    let hi = spec_upper_price(sqrt_price_0, sqrt_price_1);
    if liquidity == 0 || lo == hi {
        Ok(0)
    } else if (hi - lo) * liquidity as int > u128::MAX {
        Err(PoolError::LiquidityOverflow)
    } else {
        Ok(spec_raw_delta_b(lo, hi, liquidity, round_up) as u128)
    }
}

/// What `get_amount_delta_a` returns.
pub open spec fn spec_amount_delta_a(
    sqrt_price_0: u128,
    sqrt_price_1: u128,
    liquidity: u128,
    round_up: bool,
) -> Result<u64, PoolError> {
    let lo = spec_lower_price(sqrt_price_0, sqrt_price_1);
    let hi = spec_upper_price(sqrt_price_0, sqrt_price_1);
    if lo == hi {
        Ok(0)
    } else if lo == 0 {
        Err(PoolError::SqrtPriceOutOfBounds)
    } else if liquidity as int * 0x1_0000_0000_0000_0000 > u128::MAX {
        Err(PoolError::LiquidityOverflow)
    } else if spec_raw_delta_a(lo, hi, liquidity, round_up) > u64::MAX {
        Err(PoolError::LiquidityOverflow)
    } else {
        Ok(spec_raw_delta_a(lo, hi, liquidity, round_up) as u64)
    }
}

/// What `get_amount_delta_b` returns.
pub open spec fn spec_amount_delta_b(
    sqrt_price_0: u128,
    sqrt_price_1: u128,
    liquidity: u128,
    round_up: bool,
) -> Result<u64, PoolError> {
    let lo = spec_lower_price(sqrt_price_0, sqrt_price_1);
    let hi = spec_upper_price(sqrt_price_0, sqrt_price_1);
    if liquidity == 0 || lo == hi {
        Ok(0)
    } else if (hi - lo) * liquidity as int > u128::MAX {
        Err(PoolError::LiquidityOverflow)
    } else if spec_raw_delta_b(lo, hi, liquidity, round_up) > u64::MAX {
        Err(PoolError::LiquidityOverflow)
    } else {
        Ok(spec_raw_delta_b(lo, hi, liquidity, round_up) as u64)
    }
}

/// Floor and ceiling of a quotient enclose it: `floor * d <= n <= ceil * d`,
/// and they differ by at most one.
pub proof fn lemma_div_floor_ceil(n: int, d: int)
    requires
        0 <= n,
        0 < d,
    ensures
        0 <= spec_div_floor(n, d),
        spec_div_floor(n, d) * d <= n,
        n <= spec_div_ceil(n, d) * d,
        spec_div_floor(n, d) <= spec_div_ceil(n, d) <= spec_div_floor(n, d) + 1,
        n < (spec_div_floor(n, d) + 1) * d,
{
    vstd::arithmetic::div_mod::lemma_fundamental_div_mod(n, d);
    vstd::arithmetic::div_mod::lemma_mod_bound(n, d);
    vstd::arithmetic::div_mod::lemma_div_pos_is_pos(n, d);
    let q = n / d;
    let m = n % d;
    assert(n == d * q + m);
    assert(q * d == d * q) by (nonlinear_arith);
    assert((q + 1) * d == d * q + d) by (nonlinear_arith);
}

/// Computes the ceiling of a quotient.
pub fn div_ceil(n: u128, d: u128) -> (r: u128)
    requires
        d > 0,
        spec_div_ceil(n as int, d as int) <= u128::MAX,
    ensures
        r == spec_div_ceil(n as int, d as int),
{
    let q: u128 = n / d;
    if n % d == 0 {
        q
    } else {
        q + 1
    }
}

/// The exact amount of asset A by the quotients and remainders of
/// `n = liquidity * 2^64` by the two prices: `n * (hi - lo)` is the
/// difference of the quotients times `lo * hi`, plus the difference of the
/// cross products of the remainders, which decides the rounding.
pub proof fn lemma_delta_a_by_quotients(lo: int, hi: int, n: int)
    requires
        0 < lo < hi,
        0 <= n,
    ensures
        ({
            let k = n / lo - n / hi;
            let e = (n % lo) * hi - (n % hi) * lo;
            let x = n * (hi - lo);
            let d = lo * hi;
            &&& d > 0
            &&& 0 <= x
            &&& 0 <= k
            &&& -d < e < d
            &&& 0 <= (n % lo) * hi < d
            &&& 0 <= (n % hi) * lo < d
            &&& x == k * d + e
            &&& spec_div_floor(x, d) == (if e < 0 {
                k - 1
            } else {
                k
            })
            &&& spec_div_ceil(x, d) == (if e > 0 {
                k + 1
            } else {
                k
            })
        }),
{
    vstd::arithmetic::div_mod::lemma_fundamental_div_mod(n, lo);
    vstd::arithmetic::div_mod::lemma_fundamental_div_mod(n, hi);
    vstd::arithmetic::div_mod::lemma_mod_bound(n, lo);
    vstd::arithmetic::div_mod::lemma_mod_bound(n, hi);
    lemma_div_floor_ceil(n, lo);
    lemma_div_floor_ceil(n, hi);
    let ql = n / lo;
    let rl = n % lo;
    let qh = n / hi;
    let rh = n % hi;
    let k = ql - qh;
    let e = rl * hi - rh * lo;
    let x = n * (hi - lo);
    let d = lo * hi;
    assert(d > 0) by (nonlinear_arith)
        requires
            0 < lo < hi,
            d == lo * hi,
    ;
    assert(0 <= x) by (nonlinear_arith)
        requires
            0 <= n,
            lo < hi,
            x == n * (hi - lo),
    ;
    assert(0 <= rl * hi < d) by (nonlinear_arith)
        requires
            0 <= rl < lo,
            0 < hi,
            d == lo * hi,
    ;
    assert(0 <= rh * lo < d) by (nonlinear_arith)
        requires
            0 <= rh < hi,
            0 < lo,
            d == lo * hi,
    ;
    assert(x == k * d + e) by (nonlinear_arith)
        requires
            n == lo * ql + rl,
            n == hi * qh + rh,
            k == ql - qh,
            e == rl * hi - rh * lo,
            x == n * (hi - lo),
            d == lo * hi,
    ;
    assert(qh <= ql) by (nonlinear_arith)
        requires
            0 < lo < hi,
            qh * hi <= n,
            n < (ql + 1) * lo,
            0 <= qh,
            0 <= ql,
    ;
    if e >= 0 {
        vstd::arithmetic::div_mod::lemma_fundamental_div_mod_converse(x, d, k, e);
    } else {
        assert(x == (k - 1) * d + (e + d)) by (nonlinear_arith)
            requires
                x == k * d + e,
        ;
        vstd::arithmetic::div_mod::lemma_fundamental_div_mod_converse(x, d, k - 1, e + d);
    }
}

/// Rounded down, the amount of asset A is the largest whole number not
/// above the exact amount `liquidity * 2^64 * (hi - lo) / (lo * hi)`;
/// rounded up, it is the smallest not below it. So the pool pays out no
/// more, and asks for no less, than the exact amount, and misses it by
/// less than one unit either way.
pub proof fn lemma_delta_a_brackets_exact(lo: u128, hi: u128, liquidity: u128)
    requires
        0 < lo < hi,
    ensures
        0 <= spec_raw_delta_a(lo, hi, liquidity, false) <= spec_raw_delta_a(
            lo,
            hi,
            liquidity,
            true,
        ) <= spec_raw_delta_a(lo, hi, liquidity, false) + 1,
        spec_raw_delta_a(lo, hi, liquidity, false) * (lo * hi) <= (liquidity
            * 0x1_0000_0000_0000_0000) * (hi - lo),
        (liquidity * 0x1_0000_0000_0000_0000) * (hi - lo) < (spec_raw_delta_a(
            lo,
            hi,
            liquidity,
            false,
        ) + 1) * (lo * hi),
        (liquidity * 0x1_0000_0000_0000_0000) * (hi - lo) <= spec_raw_delta_a(
            lo,
            hi,
            liquidity,
            true,
        ) * (lo * hi),
        (spec_raw_delta_a(lo, hi, liquidity, true) - 1) * (lo * hi) < (liquidity
            * 0x1_0000_0000_0000_0000) * (hi - lo),
{
    let n: int = liquidity as int * 0x1_0000_0000_0000_0000;
    assert(0 <= n) by (nonlinear_arith)
        requires
            n == liquidity as int * 0x1_0000_0000_0000_0000,
            0 <= liquidity,
    ;
    lemma_delta_a_by_quotients(lo as int, hi as int, n);
    let x = n * (hi - lo);
    let d = lo as int * hi as int;
    lemma_div_floor_ceil(x, d);
    let up = spec_div_ceil(x, d);
    if liquidity == 0 {
        assert(x == 0) by (nonlinear_arith)
            requires
                n == 0,
                x == n * (hi - lo),
        ;
        vstd::arithmetic::div_mod::lemma_small_mod(0, d as nat);
        vstd::arithmetic::div_mod::lemma_basic_div(0, d);
        assert((up - 1) * d < x) by (nonlinear_arith)
            requires
                up == 0,
                x == 0,
                d > 0,
        ;
    } else {
        assert(x > 0) by (nonlinear_arith)
            requires
                n > 0,
                lo < hi,
                x == n * (hi - lo),
        ;
        vstd::arithmetic::div_mod::lemma_fundamental_div_mod(x, d);
        vstd::arithmetic::div_mod::lemma_mod_bound(x, d);
        assert((up - 1) * d < x) by (nonlinear_arith)
            requires
                x == d * (x / d) + x % d,
                0 <= x % d < d,
                x > 0,
                d > 0,
                up == (if x % d == 0 {
                    x / d
                } else {
                    x / d + 1
                }),
        ;
    }
}

/// The amount of asset A lies within the bound from the two quotients.
pub proof fn lemma_delta_a_within_outer(lo: u128, hi: u128, liquidity: u128)
    requires
        0 < lo < hi,
    ensures
        0 <= spec_outer_delta_a(lo, hi, liquidity, false) <= spec_raw_delta_a(
            lo,
            hi,
            liquidity,
            false,
        ),
        spec_raw_delta_a(lo, hi, liquidity, true) <= spec_outer_delta_a(lo, hi, liquidity, true),
{
    let n: int = liquidity as int * 0x1_0000_0000_0000_0000;
    assert(0 <= n) by (nonlinear_arith)
        requires
            n == liquidity as int * 0x1_0000_0000_0000_0000,
            0 <= liquidity,
    ;
    let l = lo as int;
    let h = hi as int;
    lemma_delta_a_by_quotients(l, h, n);
    let rl = n % l;
    let rh = n % h;
    let e = rl * h - rh * l;
    if e < 0 {
        // the remainder by the higher price is not zero
        assert(rh > 0) by (nonlinear_arith)
            requires
                rl * h - rh * l < 0,
                rl >= 0,
                h > 0,
                l > 0,
        ;
    }
    if e > 0 {
        assert(rl > 0) by (nonlinear_arith)
            requires
                rl * h - rh * l > 0,
                rh * l >= 0,
                h > 0,
        ;
    }
    lemma_div_floor_ceil(n * (h - l), l * h);
}

/// Rounded down, the amount of asset B never exceeds the exact amount
/// `liquidity * (hi - lo) / 2^64`; rounded up, it never falls below it, and
/// the two differ by at most one.
pub proof fn lemma_delta_b_brackets_exact(lo: u128, hi: u128, liquidity: u128)
    requires
        lo <= hi,
    ensures
        0 <= spec_raw_delta_b(lo, hi, liquidity, false) <= spec_raw_delta_b(
            lo,
            hi,
            liquidity,
            true,
        ) <= spec_raw_delta_b(lo, hi, liquidity, false) + 1,
        spec_raw_delta_b(lo, hi, liquidity, false) * 0x1_0000_0000_0000_0000 <= (hi - lo)
            * liquidity,
        (hi - lo) * liquidity <= spec_raw_delta_b(lo, hi, liquidity, true)
            * 0x1_0000_0000_0000_0000,
{
    let n: int = (hi - lo) * liquidity as int;
    assert(0 <= n) by (nonlinear_arith)
        requires
            n == (hi - lo) * liquidity as int,
            lo <= hi,
            0 <= liquidity,
    ;
    lemma_div_floor_ceil(n, 0x1_0000_0000_0000_0000);
}

/// Between two different prices above zero, and with liquidity that fits,
/// the amounts of asset A fit in 128 bits.
pub proof fn lemma_raw_delta_a_fits(lo: u128, hi: u128, liquidity: u128)
    requires
        0 < lo < hi,
        liquidity as int * 0x1_0000_0000_0000_0000 <= u128::MAX,
    ensures
        0 <= spec_raw_delta_a(lo, hi, liquidity, false) <= spec_raw_delta_a(
            lo,
            hi,
            liquidity,
            true,
        ) <= u128::MAX,
        spec_outer_delta_a(lo, hi, liquidity, true) <= u128::MAX,
{
    lemma_delta_a_brackets_exact(lo, hi, liquidity);
    lemma_delta_a_within_outer(lo, hi, liquidity);
    let n: int = liquidity as int * 0x1_0000_0000_0000_0000;
    assert(0 <= n) by (nonlinear_arith)
        requires
            n == liquidity as int * 0x1_0000_0000_0000_0000,
            0 <= liquidity,
    ;
    lemma_div_floor_ceil(n, lo as int);
    lemma_div_floor_ceil(n, hi as int);
    let f = spec_div_floor(n, lo as int);
    assert(f <= n) by (nonlinear_arith)
        requires
            f * lo <= n,
            lo >= 1,
            f >= 0,
    ;
    if n % (lo as int) != 0 {
        // a remainder is left only by a divisor above one, from something
        if n == 0 {
            vstd::arithmetic::div_mod::lemma_small_mod(0, lo as nat);
        }
        if lo == 1 {
            vstd::arithmetic::div_mod::lemma_fundamental_div_mod(n, 1);
            vstd::arithmetic::div_mod::lemma_mod_bound(n, 1);
        }
        assert(f < n) by (nonlinear_arith)
            requires
                f * lo <= n,
                lo >= 2,
                f >= 0,
                n >= 1,
        ;
    }
}

/// Where the product of span and liquidity fits, the amounts of asset B
/// fit in 128 bits.
pub proof fn lemma_raw_delta_b_fits(lo: u128, hi: u128, liquidity: u128)
    requires
        lo <= hi,
        (hi - lo) * liquidity as int <= u128::MAX,
    ensures
        0 <= spec_raw_delta_b(lo, hi, liquidity, false) <= spec_raw_delta_b(
            lo,
            hi,
            liquidity,
            true,
        ) <= u128::MAX,
{
    lemma_delta_b_brackets_exact(lo, hi, liquidity);
    let n: int = (hi - lo) * liquidity as int;
    assert(0 <= n) by (nonlinear_arith)
        requires
            n == (hi - lo) * liquidity as int,
            lo <= hi,
            0 <= liquidity,
    ;
    lemma_div_floor_ceil(n, 0x1_0000_0000_0000_0000);
    let f = spec_div_floor(n, 0x1_0000_0000_0000_0000);
    assert(f * 0x1_0000_0000_0000_0000 <= n);
}

/// An amount that fits when rounded up fits when rounded down, and is
/// then not the larger one.
pub proof fn lemma_rounded_down_fits(
    sqrt_price_0: u128,
    sqrt_price_1: u128,
    liquidity: u128,
)
    ensures
        spec_amount_delta_a(sqrt_price_0, sqrt_price_1, liquidity, true) is Ok
            ==> spec_amount_delta_a(sqrt_price_0, sqrt_price_1, liquidity, false) is Ok
            && spec_amount_delta_a(sqrt_price_0, sqrt_price_1, liquidity, false).unwrap()
            <= spec_amount_delta_a(sqrt_price_0, sqrt_price_1, liquidity, true).unwrap(),
        spec_amount_delta_b(sqrt_price_0, sqrt_price_1, liquidity, true) is Ok
            ==> spec_amount_delta_b(sqrt_price_0, sqrt_price_1, liquidity, false) is Ok
            && spec_amount_delta_b(sqrt_price_0, sqrt_price_1, liquidity, false).unwrap()
            <= spec_amount_delta_b(sqrt_price_0, sqrt_price_1, liquidity, true).unwrap(),
{
    let lo = spec_lower_price(sqrt_price_0, sqrt_price_1);
    let hi = spec_upper_price(sqrt_price_0, sqrt_price_1);
    if lo != hi {
        if lo != 0 {
            lemma_delta_a_brackets_exact(lo, hi, liquidity);
        }
        lemma_delta_b_brackets_exact(lo, hi, liquidity);
    }
}

/// Multiplies two 128-bit numbers in full: returns the high and the low
/// half of the 256-bit product.
pub fn wide_mul(a: u128, b: u128) -> (r: (u128, u128))
    ensures
        r.0 * 0x1_0000_0000_0000_0000_0000_0000_0000_0000int + r.1 == a * b,
{
    let a0: u128 = a % 0x1_0000_0000_0000_0000u128;
    let a1: u128 = a / 0x1_0000_0000_0000_0000u128;
    let b0: u128 = b % 0x1_0000_0000_0000_0000u128;
    let b1: u128 = b / 0x1_0000_0000_0000_0000u128;
    proof {
        lemma_half_product_fits(a0 as int, b0 as int);
        lemma_half_product_fits(a0 as int, b1 as int);
        lemma_half_product_fits(a1 as int, b0 as int);
        lemma_half_product_fits(a1 as int, b1 as int);
    }
    let p00: u128 = a0 * b0;
    let p01: u128 = a0 * b1;
    let p10: u128 = a1 * b0;
    let p11: u128 = a1 * b1;
    let t: u128 = p00 / 0x1_0000_0000_0000_0000u128 + p01 % 0x1_0000_0000_0000_0000u128 + p10
        % 0x1_0000_0000_0000_0000u128;
    let low: u128 = p00 % 0x1_0000_0000_0000_0000u128 + (t % 0x1_0000_0000_0000_0000u128)
        * 0x1_0000_0000_0000_0000u128;
    let high: u128 = p11 + p01 / 0x1_0000_0000_0000_0000u128 + p10 / 0x1_0000_0000_0000_0000u128
        + t / 0x1_0000_0000_0000_0000u128;
    proof {
        let w: int = 0x1_0000_0000_0000_0000;
        assert(a as int * b as int == (p11 as int) * (w * w) + (p01 as int + p10 as int) * w
            + p00 as int) by (nonlinear_arith)
            requires
                a as int == a1 as int * w + a0 as int,
                b as int == b1 as int * w + b0 as int,
                p00 as int == a0 as int * b0 as int,
                p01 as int == a0 as int * b1 as int,
                p10 as int == a1 as int * b0 as int,
                p11 as int == a1 as int * b1 as int,
        ;
        let ww: int = 0x1_0000_0000_0000_0000_0000_0000_0000_0000int;
        assert(w * w == ww);
        let q00 = p00 as int / w;
        let r00 = p00 as int % w;
        let q01 = p01 as int / w;
        let r01 = p01 as int % w;
        let q10 = p10 as int / w;
        let r10 = p10 as int % w;
        let qt = t as int / w;
        let rt = t as int % w;
        assert(t == q00 + r01 + r10);
        assert(low == r00 + rt * w);
        assert(high == p11 + q01 + q10 + qt);
        assert((p11 as int) * ww + (p01 as int + p10 as int) * w + p00 as int == (p11 + q01
            + q10 + qt) * ww + (r00 + rt * w)) by (nonlinear_arith)
            requires
                ww == w * w,
                p00 as int == q00 * w + r00,
                p01 as int == q01 * w + r01,
                p10 as int == q10 * w + r10,
                q00 + r01 + r10 == qt * w + rt,
        ;
    }
    (high, low)
}

/// The product of two numbers below two to the power 64 fits in 128
/// bits, with room for three more such numbers.
proof fn lemma_half_product_fits(x: int, y: int)
    requires
        0 <= x < 0x1_0000_0000_0000_0000,
        0 <= y < 0x1_0000_0000_0000_0000,
    ensures
        0 <= x * y <= 0xffff_ffff_ffff_fffe_0000_0000_0000_0001,
{
    assert(0 <= x * y <= 0xffff_ffff_ffff_ffff * 0xffff_ffff_ffff_ffff) by (nonlinear_arith)
        requires
            0 <= x <= 0xffff_ffff_ffff_ffff,
            0 <= y <= 0xffff_ffff_ffff_ffff,
    ;
}

/// Tests whether the product `a * b` is below the product `c * d`, in the
/// width that holds them.
pub fn product_less(a: u128, b: u128, c: u128, d: u128) -> (r: bool)
    ensures
        r == (a * b < c * d),
{
    let left = wide_mul(a, b);
    let right = wide_mul(c, d);
    left.0 < right.0 || (left.0 == right.0 && left.1 < right.1)
}

/// Computes the amount of asset A between two prices without the limit of
/// 64 bits.
pub fn amount_delta_a_wide(
    sqrt_price_0: u128,
    sqrt_price_1: u128,
    liquidity: u128,
    round_up: bool,
) -> (r: Result<u128, PoolError>)
    ensures
        r == spec_wide_delta_a(sqrt_price_0, sqrt_price_1, liquidity, round_up),
        r is Ok && spec_lower_price(sqrt_price_0, sqrt_price_1) != spec_upper_price(
            sqrt_price_0,
            sqrt_price_1,
        ) ==> r.unwrap() == spec_raw_delta_a(
            spec_lower_price(sqrt_price_0, sqrt_price_1),
            spec_upper_price(sqrt_price_0, sqrt_price_1),
            liquidity,
            round_up,
        ),
{
    let (lo, hi) = if sqrt_price_0 <= sqrt_price_1 {
        (sqrt_price_0, sqrt_price_1)
    } else {
        (sqrt_price_1, sqrt_price_0)
    };
    if lo == hi {
        return Ok(0);
    }
    if lo == 0 {
        return Err(PoolError::SqrtPriceOutOfBounds);
    }
    let numerator: u128 = match liquidity.checked_mul(0x1_0000_0000_0000_0000u128) {
        Some(n) => n,
        None => { return Err(PoolError::LiquidityOverflow); },
    };
    proof {
        lemma_delta_a_by_quotients(lo as int, hi as int, numerator as int);
        lemma_raw_delta_a_fits(lo, hi, liquidity);
    }
    let quotients: u128 = numerator / lo - numerator / hi;
    let left_lo: u128 = numerator % lo;
    let left_hi: u128 = numerator % hi;
    // the cross products of the remainders decide the rounding
    let amount: u128 = if round_up {
        if product_less(left_hi, lo, left_lo, hi) {
            quotients + 1
        } else {
            quotients
        }
    } else {
        if product_less(left_lo, hi, left_hi, lo) {
            quotients - 1
        } else {
            quotients
        }
    };
    Ok(amount)
}

/// Computes the amount of asset B between two prices without the limit of
/// 64 bits.
pub fn amount_delta_b_wide(
    sqrt_price_0: u128,
    sqrt_price_1: u128,
    liquidity: u128,
    round_up: bool,
) -> (r: Result<u128, PoolError>)
    ensures
        r == spec_wide_delta_b(sqrt_price_0, sqrt_price_1, liquidity, round_up),
        r is Ok && liquidity != 0 && spec_lower_price(sqrt_price_0, sqrt_price_1)
            != spec_upper_price(sqrt_price_0, sqrt_price_1) ==> r.unwrap() == spec_raw_delta_b(
            spec_lower_price(sqrt_price_0, sqrt_price_1),
            spec_upper_price(sqrt_price_0, sqrt_price_1),
            liquidity,
            round_up,
        ),
{
    let (lo, hi) = if sqrt_price_0 <= sqrt_price_1 {
        (sqrt_price_0, sqrt_price_1)
    } else {
        (sqrt_price_1, sqrt_price_0)
    };
    if liquidity == 0 || lo == hi {
        return Ok(0);
    }
    let product: u128 = match (hi - lo).checked_mul(liquidity) {
        Some(n) => n,
        None => { return Err(PoolError::LiquidityOverflow); },
    };
    proof {
        lemma_div_floor_ceil(product as int, 0x1_0000_0000_0000_0000);
    }
    let floor: u128 = product / 0x1_0000_0000_0000_0000u128;
    let amount: u128 = if round_up && product % 0x1_0000_0000_0000_0000u128 != 0 {
        floor + 1
    } else {
        floor
    };
    Ok(amount)
}

/// Computes the amount of asset A that moving the price between the two
/// given square-root prices takes or releases at the given liquidity.
///
/// The order of the two prices does not matter. `round_up` is set when the
/// amount is owed to the pool and cleared when the pool pays it out. An
/// amount that does not fit in 64 bits is refused.
pub fn get_amount_delta_a(
    sqrt_price_0: u128,
    sqrt_price_1: u128,
    liquidity: u128,
    round_up: bool,
) -> (r: Result<u64, PoolError>)
    ensures
        r == spec_amount_delta_a(sqrt_price_0, sqrt_price_1, liquidity, round_up),
{
    let amount: u128 = match amount_delta_a_wide(sqrt_price_0, sqrt_price_1, liquidity, round_up) {
        Ok(a) => a,
        Err(e) => { return Err(e); },
    };
    if amount > 0xffff_ffff_ffff_ffffu128 {
        return Err(PoolError::LiquidityOverflow);
    }
    Ok(amount as u64)
}

/// Computes the amount of asset B that moving the price between the two
/// given square-root prices takes or releases at the given liquidity.
///
/// The order of the two prices does not matter. `round_up` is set when the
/// amount is owed to the pool and cleared when the pool pays it out. An
/// amount that does not fit in 64 bits is refused.
pub fn get_amount_delta_b(
    sqrt_price_0: u128,
    sqrt_price_1: u128,
    liquidity: u128,
    round_up: bool,
) -> (r: Result<u64, PoolError>)
    ensures
        r == spec_amount_delta_b(sqrt_price_0, sqrt_price_1, liquidity, round_up),
{
    let amount: u128 = match amount_delta_b_wide(sqrt_price_0, sqrt_price_1, liquidity, round_up) {
        Ok(a) => a,
        Err(e) => { return Err(e); },
    };
    if amount > 0xffff_ffff_ffff_ffffu128 {
        return Err(PoolError::LiquidityOverflow);
    }
    Ok(amount as u64)
}

} // verus!
