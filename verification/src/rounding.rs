//! Rounding of a ratio of two integers to the nearest integer.

use vstd::prelude::*;

verus! {

/// `num / den` rounded to the nearest integer, a tie going up: half of `den`
/// is added before the division cuts the fraction off.
///
/// Meant for `num >= 0` and `den > 0`.
pub open spec fn round_div(num: int, den: int) -> int {
    (num + den / 2) / den
}

/// The rounded ratio is within a half of the exact one, and it is the upper
/// neighbour when the exact ratio lies half way.
pub proof fn lemma_round_div_nearest(num: int, den: int)
    requires
        0 < den,
    ensures
        -den < 2 * den * round_div(num, den) - 2 * num <= den,
{
    let half = den / 2;
    let q = (num + half) / den;
    assert(den * q <= num + half < den * q + den) by (nonlinear_arith)
        requires
            q == (num + half) / den,
            0 < den,
    ;
    assert(2 * den * q == 2 * (den * q)) by (nonlinear_arith);
    assert(2 * half == den || 2 * half == den - 1);
    if 2 * half == den - 1 {
        // An odd `den` cannot be twice a whole number.
        assert(2 * (den * q - num) != -den);
    }
}

/// A larger numerator never rounds to less.
pub proof fn lemma_round_div_monotonic(a: int, b: int, den: int)
    requires
        a <= b,
        0 < den,
    ensures
        round_div(a, den) <= round_div(b, den),
{
    let x = a + den / 2;
    let y = b + den / 2;
    assert(x / den <= y / den) by (nonlinear_arith)
        requires
            x <= y,
            0 < den,
    ;
}

/// A numerator that is larger by at least `den` rounds to more.
pub proof fn lemma_round_div_strict(a: int, b: int, den: int)
    requires
        a + den <= b,
        0 < den,
    ensures
        round_div(a, den) < round_div(b, den),
{
    let x = a + den / 2;
    let y = b + den / 2;
    assert(x / den < y / den) by (nonlinear_arith)
        requires
            x + den <= y,
            0 < den,
    ;
}

/// A whole ratio is left as it is.
pub proof fn lemma_round_div_exact(q: int, den: int)
    requires
        0 < den,
    ensures
        round_div(q * den, den) == q,
{
    let half = den / 2;
    assert((q * den + half) / den == q) by (nonlinear_arith)
        requires
            0 <= half < den,
    ;
}

} // verus!
