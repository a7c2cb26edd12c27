//! Exact arithmetic on coordinates: distances, products that do not overflow,
//! and rounding of fractions.

use vstd::prelude::*;
use vstd::arithmetic::div_mod::{lemma_fundamental_div_mod, lemma_fundamental_div_mod_converse};
use vstd::arithmetic::div_mod::lemma_mod_bound;

verus! {

/// The distance between two coordinates on one axis.
pub open spec fn distance(a: int, b: int) -> int {
    if a >= b {
        a - b
    } else {
        b - a
    }
}

/// The fraction `num / den` rounded to the nearest integer, a fraction
/// half-way between two integers to the larger one. Meant for `den > 0`.
pub open spec fn round_half_up(num: int, den: int) -> int {
    (2 * num + den) / (2 * den)
}

/// An integer is the rounded fraction exactly when it is within half a unit
/// of the fraction: at most half below it, and less than half above it.
pub proof fn lemma_round_half_up(num: int, den: int, value: int)
    requires
        den > 0,
    ensures
        value == round_half_up(num, den) <==> -den <= 2 * (num - den * value) < den,
{
    let x = 2 * num + den;
    let d = 2 * den;
    assert(2 * (num - den * value) == 2 * num - d * value) by (nonlinear_arith)
        requires
            d == 2 * den,
    ;
    if value == round_half_up(num, den) {
        lemma_fundamental_div_mod(x, d);
        lemma_mod_bound(x, d);
    }
    if -den <= 2 * (num - den * value) < den {
        let r = x - d * value;
        assert(x == value * d + r) by (nonlinear_arith)
            requires
                r == x - d * value,
        ;
        lemma_fundamental_div_mod_converse(x, d, value, r);
    }
}

/// The distance between two coordinates on one axis.
pub(crate) fn axis_distance(a: usize, b: usize) -> (result: usize)
    ensures
        result == distance(a as int, b as int),
{
    if a >= b {
        a - b
    } else {
        b - a
    }
}

/// The product of two coordinates, in a type wide enough to hold it.
pub(crate) fn wide_product(a: usize, b: usize) -> (product: u128)
    ensures
        product == a * b,
{
    let (wide_a, wide_b) = (a as u128, b as u128);
    assert(wide_a * wide_b <= 0xffff_ffff_ffff_ffff * 0xffff_ffff_ffff_ffff) by (nonlinear_arith)
        requires
            wide_a <= 0xffff_ffff_ffff_ffff,
            wide_b <= 0xffff_ffff_ffff_ffff,
    ;
    wide_a * wide_b
}

} // verus!
