//! Exact integer arithmetic shared by the geometry and projection code.
//!
//! The facts about products and quotients that the rest of the library
//! needs, each proved from the laws of arithmetic in `vstd`.

use vstd::prelude::*;
use vstd::arithmetic::div_mod::{
    lemma_div_is_ordered, lemma_div_multiples_vanish, lemma_div_nonincreasing,
    lemma_div_pos_is_pos, lemma_fundamental_div_mod, lemma_fundamental_div_mod_converse,
};
use vstd::arithmetic::mul::{
    lemma_mul_basics, lemma_mul_inequality, lemma_mul_is_associative, lemma_mul_is_commutative,
    lemma_mul_is_distributive_add, lemma_mul_is_distributive_add_other_way,
    lemma_mul_is_distributive_sub, lemma_mul_is_distributive_sub_other_way, lemma_mul_nonnegative,
    lemma_mul_strictly_positive, lemma_mul_unary_negation, lemma_mul_upper_bound,
};

verus! {

/// The factors of a product can be exchanged.
pub proof fn lemma_mul_commutes(a: int, b: int)
    ensures
        a * b == b * a,
{
    lemma_mul_is_commutative(a, b);
}

/// A product with a factor 0 is 0.
pub proof fn lemma_mul_by_zero(a: int, b: int)
    requires
        a == 0 || b == 0,
    ensures
        a * b == 0,
{
    lemma_mul_basics(a);
    lemma_mul_basics(b);
}

/// Negating a factor negates the product.
pub proof fn lemma_mul_neg(a: int, b: int)
    ensures
        (-a) * b == -(a * b),
        a * (-b) == -(a * b),
        (-a) * (-b) == a * b,
{
    lemma_mul_unary_negation(a, b);
    lemma_mul_unary_negation(-a, b);
}

/// The sign of a product is the product of the signs of its factors.
pub proof fn lemma_mul_sign(a: int, b: int)
    ensures
        (a > 0 && b > 0) ==> a * b > 0,
        (a > 0 && b < 0) ==> a * b < 0,
        (a < 0 && b > 0) ==> a * b < 0,
        (a < 0 && b < 0) ==> a * b > 0,
        (a == 0 || b == 0) ==> a * b == 0,
{
    lemma_mul_neg(a, b);
    lemma_mul_strictly_positive(a, b);
    lemma_mul_strictly_positive(-a, b);
    lemma_mul_strictly_positive(a, -b);
    lemma_mul_strictly_positive(-a, -b);
    if a == 0 || b == 0 {
        lemma_mul_by_zero(a, b);
    }
}

/// Multiplication distributes over sums and differences.
pub proof fn lemma_mul_distributes(a: int, b: int, c: int)
    ensures
        (a - b) * c == a * c - b * c,
        (a + b) * c == a * c + b * c,
        c * (a - b) == c * a - c * b,
        c * (a + b) == c * a + c * b,
{
    lemma_mul_is_distributive_sub_other_way(c, a, b);
    lemma_mul_is_distributive_add_other_way(c, a, b);
    lemma_mul_is_distributive_sub(c, a, b);
    lemma_mul_is_distributive_add(c, a, b);
}

/// The factors of a product of three can be grouped and exchanged freely.
pub proof fn lemma_mul_swaps(a: int, b: int, c: int)
    ensures
        (a * b) * c == (a * c) * b,
        (a * b) * c == a * (b * c),
        (a * b) * c == b * (a * c),
{
    lemma_mul_is_associative(a, b, c);
    lemma_mul_is_associative(a, c, b);
    lemma_mul_is_associative(b, a, c);
    lemma_mul_commutes(b, c);
    lemma_mul_commutes(a, b);
}

/// A product of two differences, multiplied out.
pub proof fn lemma_cross_expand(a: int, b: int, c: int, d: int)
    ensures
        (a - b) * (c - d) == a * c - a * d - b * c + b * d,
{
    lemma_mul_distributes(a, b, c - d);
    lemma_mul_distributes(c, d, a);
    lemma_mul_distributes(c, d, b);
}

/// The product of two bounded integers is bounded by the product of the bounds.
pub proof fn lemma_mul_bounded(a: int, b: int, ma: int, mb: int)
    requires
        -ma <= a <= ma,
        -mb <= b <= mb,
    ensures
        -(ma * mb) <= a * b <= ma * mb,
{
    let aa = if a >= 0 {
        a
    } else {
        -a
    };
    let bb = if b >= 0 {
        b
    } else {
        -b
    };
    lemma_mul_upper_bound(aa, ma, bb, mb);
    lemma_mul_nonnegative(aa, bb);
    lemma_mul_neg(a, b);
}

/// A sum weighted with weights that are not negative lies between the
/// smallest and the largest of its terms, times the sum of the weights.
pub proof fn lemma_weighted_sum_between(
    w0: int,
    w1: int,
    w2: int,
    x0: int,
    x1: int,
    x2: int,
    lo: int,
    hi: int,
)
    requires
        w0 >= 0,
        w1 >= 0,
        w2 >= 0,
        lo <= x0 <= hi,
        lo <= x1 <= hi,
        lo <= x2 <= hi,
    ensures
        lo * (w0 + w1 + w2) <= w0 * x0 + w1 * x1 + w2 * x2 <= hi * (w0 + w1 + w2),
{
    lemma_mul_inequality(lo, x0, w0);
    lemma_mul_inequality(x0, hi, w0);
    lemma_mul_inequality(lo, x1, w1);
    lemma_mul_inequality(x1, hi, w1);
    lemma_mul_inequality(lo, x2, w2);
    lemma_mul_inequality(x2, hi, w2);
    lemma_mul_distributes(w0, w1, lo);
    lemma_mul_distributes(w0 + w1, w2, lo);
    lemma_mul_distributes(w0, w1, hi);
    lemma_mul_distributes(w0 + w1, w2, hi);
    lemma_mul_commutes(w0, x0);
    lemma_mul_commutes(w1, x1);
    lemma_mul_commutes(w2, x2);
    lemma_mul_commutes(w0, lo);
    lemma_mul_commutes(w1, lo);
    lemma_mul_commutes(w2, lo);
    lemma_mul_commutes(w0, hi);
    lemma_mul_commutes(w1, hi);
    lemma_mul_commutes(w2, hi);
}

/// A factor that is positive can be cancelled from an inequality.
pub proof fn lemma_cancel(d: int, a: int, b: int)
    requires
        d > 0,
        a * d <= b * d,
    ensures
        a <= b,
{
    if a > b {
        lemma_mul_strictly_positive(a - b, d);
        lemma_mul_distributes(a, b, d);
    }
}

/// Dividing an exact multiple of `d` by `d` gives the other factor back.
pub proof fn lemma_div_exact(q: int, d: int)
    requires
        d > 0,
    ensures
        (q * d) / d == q,
        (d * q) / d == q,
{
    lemma_div_multiples_vanish(q, d);
    lemma_mul_commutes(q, d);
}

/// A quotient lies between two integers whenever the dividend lies between
/// their multiples of the (positive) divisor.
pub proof fn lemma_div_between(n: int, d: int, lo: int, hi: int)
    requires
        d > 0,
        lo * d <= n <= hi * d,
    ensures
        lo <= n / d <= hi,
{
    lemma_div_exact(lo, d);
    lemma_div_exact(hi, d);
    lemma_div_is_ordered(lo * d, n, d);
    lemma_div_is_ordered(n, hi * d, d);
}

/// The quotient of a natural number by a positive one lies between 0 and the
/// number itself.
pub proof fn lemma_div_shrinks(n: int, d: int)
    requires
        d > 0,
        n >= 0,
    ensures
        0 <= n / d <= n,
{
    lemma_div_pos_is_pos(n, d);
    lemma_div_nonincreasing(n, d);
}

/// Quotient of `n` by a positive `d`, rounded toward negative infinity.
pub fn floor_div(n: i128, d: i128) -> (q: i128)
    requires
        d > 0,
    ensures
        q == n / d,
{
    if n >= 0 {
        n / d
    } else {
        let m: i128 = -(n + 1);
        let k: i128 = m / d;
        proof {
            let r: int = m as int % d as int;
            lemma_fundamental_div_mod(m as int, d as int);
            lemma_mul_neg(k as int + 1, d as int);
            lemma_mul_distributes(k as int, 1, d as int);
            lemma_mul_basics(d as int);
            lemma_mul_commutes(d as int, k as int);
            assert(n as int == (-(k as int) - 1) * d + (d - r - 1));
            lemma_fundamental_div_mod_converse(n as int, d as int, -(k as int) - 1, d - r - 1);
        }
        -k - 1
    }
}

} // verus!
