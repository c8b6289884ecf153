use core::cmp::Ordering;
use vstd::arithmetic::div_mod::{
    lemma_basic_div, lemma_div_by_self, lemma_fundamental_div_mod,
    lemma_fundamental_div_mod_converse, lemma_mod_bound,
};
use vstd::prelude::*;

verus! {

/// Compares an optional bound against a literal: the ordering of the
/// bound's value and `b`, or `default` when the bound is absent.
pub fn cmp_opt_lit(a: Option<i64>, b: i64, default: Ordering) -> (r: Ordering)
    ensures
        r == (match a {
            Some(v) => if v < b {
                Ordering::Less
            } else if v == b {
                Ordering::Equal
            } else {
                Ordering::Greater
            },
            None => default,
        }),
{
    match a {
        Some(v) => {
            if v < b {
                Ordering::Less
            } else if v == b {
                Ordering::Equal
            } else {
                Ordering::Greater
            }
        },
        None => default,
    }
}

/// Takes `x`, which falls inclusively between `a` and `b`, to the value
/// that falls between `c` and `d` at the same relative position, by the
/// linear formula `(x - a) / (b - a) * (d - c) + c` on integers.
pub fn map(x: i64, a: i64, b: i64, c: i64, d: i64) -> (r: i64)
    requires
        a <= x <= b,
        a < b,
        -1_000_000_000 <= a <= 1_000_000_000,
        -1_000_000_000 <= b <= 1_000_000_000,
        -1_000_000_000 <= c <= 1_000_000_000,
        -1_000_000_000 <= d <= 1_000_000_000,
    ensures
        r == (x - a) / (b - a) * (d - c) + c,
{
    let span: i64 = x - a;
    let whole: i64 = b - a;
    let q: i64 = span / whole;
    assert(q == 0 || q == 1) by {
        if span < whole {
            lemma_basic_div(span as int, whole as int);
        } else {
            lemma_div_by_self(whole as int);
        }
    }
    let scaled: i64 = if q == 1 {
        d - c
    } else {
        0
    };
    assert(scaled == q * (d - c));
    scaled + c
}

/// Whether row `y` lies inside the depth bounds of an ore: at or below
/// the `below` bound and at or above the `above` bound, either bound
/// optionally absent.
pub open spec fn in_bounds_y_spec(below: Option<i64>, above: Option<i64>, y: i64) -> bool {
    (below matches Some(b) ==> y <= b) && (above matches Some(a) ==> y >= a)
}

/// Decides whether row `y` satisfies an ore's optional depth bounds.
pub fn in_bounds_y(below: Option<i64>, above: Option<i64>, y: i64) -> (r: bool)
    ensures
        r == in_bounds_y_spec(below, above, y),
{
    let below_ok = match below {
        Some(b) => y <= b,
        None => true,
    };
    let above_ok = match above {
        Some(a) => y >= a,
        None => true,
    };
    below_ok && above_ok
}

/// Floor division of `a` by a positive divisor `b`: the spec-level `/`,
/// which rounds toward negative infinity, computed with machine
/// (truncating) division.
pub fn floor_div(a: i64, b: i64) -> (r: i64)
    requires
        1 <= b <= 1_000_000_000,
        -2_000_000_000_000_000 <= a <= 2_000_000_000_000_000,
    ensures
        r == a as int / b as int,
{
    if a >= 0 {
        a / b
    } else {
        let n: i64 = -a;
        let q: i64 = (n + b - 1) / b;
        proof {
            let m: int = (n + b - 1) as int;
            let s: int = m % (b as int);
            lemma_fundamental_div_mod(m, b as int);
            lemma_mod_bound(m, b as int);
            assert(q == m / (b as int));
            assert(b * q == m - s);
            assert(b * q - n == b - 1 - s);
            assert(0 <= b * q - n < b);
            assert(a as int == -(q as int) * (b as int) + (b * q - n)) by (nonlinear_arith)
                requires
                    a as int == -(n as int),
            {
            }
            lemma_fundamental_div_mod_converse(a as int, b as int, -(q as int), b * q - n);
        }
        -q
    }
}

/// Rounds the quotient `a / b` (for positive `b`) to the nearest
/// integer, halves away from zero.
pub open spec fn round_div(a: int, b: int) -> int {
    if a >= 0 {
        (2 * a + b) / (2 * b)
    } else {
        -((2 * -a + b) / (2 * b))
    }
}

/// Division of `a` by positive `b`, rounded to the nearest integer with
/// halves away from zero.
pub fn rounded_div(a: i64, b: i64) -> (r: i64)
    requires
        1 <= b <= 1_000_000_000_000,
        -1_000_000_000_000_000 <= a <= 1_000_000_000_000_000,
    ensures
        r == round_div(a as int, b as int),
{
    if a >= 0 {
        (2 * a + b) / (2 * b)
    } else {
        let q: i64 = (2 * (-a) + b) / (2 * b);
        -q
    }
}

} // verus!
