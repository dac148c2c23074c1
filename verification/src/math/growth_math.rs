use vstd::prelude::*;

verus! {

/// Sum of two growth accumulators, which wrap at two to the power 128.
pub open spec fn spec_wrapping_add(a: u128, b: u128) -> u128 {
    ((a + b) % 0x1_0000_0000_0000_0000_0000_0000_0000_0000int) as u128
}

/// Difference of two growth accumulators, which wrap at two to the power
/// 128: the growth from `b` to `a`, whichever of the two is the larger
/// number.
pub open spec fn spec_wrapping_sub(a: u128, b: u128) -> u128 {
    ((a - b) % 0x1_0000_0000_0000_0000_0000_0000_0000_0000int) as u128
}

/// Adds to a growth accumulator, wrapping at two to the power 128.
pub fn wrapping_add(a: u128, b: u128) -> (r: u128)
    ensures
        r == spec_wrapping_add(a, b),
        a + b <= u128::MAX ==> r == a + b,
{
    a.wrapping_add(b)
}

/// Takes the growth from `b` to `a`, wrapping at two to the power 128.
pub fn wrapping_sub(a: u128, b: u128) -> (r: u128)
    ensures
        r == spec_wrapping_sub(a, b),
        a >= b ==> r == a - b,
{
    a.wrapping_sub(b)
}

/// The growth from a value to the same value plus `d` is `d`; taking a
/// value from a total twice gives the value back; and a total less nothing
/// is the total.
pub proof fn lemma_wrapping_laws(a: u128, d: u128)
    ensures
        spec_wrapping_sub(spec_wrapping_add(a, d), a) == d,
        spec_wrapping_add(spec_wrapping_sub(a, d), d) == a,
        spec_wrapping_sub(a, spec_wrapping_sub(a, d)) == d,
        spec_wrapping_sub(a, 0) == a,
        spec_wrapping_sub(a, a) == 0,
        spec_wrapping_add(a, 0) == a,
{
}

} // verus!
