//! Fixed-point units and the integer arithmetic shared by the geometry code.

use vstd::prelude::*;
use vstd::arithmetic::div_mod::*;

verus! {

/// Angle units in one degree: an angle of one unit is 1e-7 degrees.
pub const UNITS_PER_DEGREE: i64 = 10_000_000;

/// Length units in one metre: a length of one unit is one millimetre.
pub const UNITS_PER_METRE: i64 = 1_000;

/// Mean Earth radius of the spherical model, in length units.
pub const EARTH_RADIUS: i64 = 6_371_000_000;

/// The value that stands for 1 in a sine or cosine.
pub const TRIG_ONE: i64 = 1_000_000_000;

/// Largest magnitude of a length that the Cartesian stages accept: half the
/// machine range, so that the difference of two lengths still fits.
pub const LENGTH_LIMIT: i64 = 0x3fff_ffff_ffff_ffff;

/// Linear interpolation between `a` and `b` at parameter `i / m`, rounded
/// towards negative infinity: `a * (1 - i/m) + b * (i/m)`.
pub open spec fn lerp(a: int, b: int, i: int, m: int) -> int {
    (a * (m - i) + b * i) / m
}

/// `lerp` starts at `a`, ends at `b` and stays between the two.
pub proof fn lemma_lerp_bounds(a: int, b: int, i: int, m: int)
    requires
        0 <= i <= m,
        0 < m,
    ensures
        lerp(a, b, 0, m) == a,
        lerp(a, b, m, m) == b,
        a <= b ==> a <= lerp(a, b, i, m) <= b,
        b <= a ==> b <= lerp(a, b, i, m) <= a,
{
    lemma_div_multiples_vanish(a, m);
    lemma_div_multiples_vanish(b, m);
    assert(a * (m - 0) + b * 0 == m * a) by (nonlinear_arith);
    assert(a * (m - m) + b * m == m * b) by (nonlinear_arith);
    let num = a * (m - i) + b * i;
    if a <= b {
        assert(m * a <= num <= m * b) by (nonlinear_arith)
            requires
                a <= b,
                0 <= i <= m,
                num == a * (m - i) + b * i,
        ;
        lemma_div_is_ordered(m * a, num, m);
        lemma_div_is_ordered(num, m * b, m);
    }
    if b <= a {
        assert(m * b <= num <= m * a) by (nonlinear_arith)
            requires
                b <= a,
                0 <= i <= m,
                num == a * (m - i) + b * i,
        ;
        lemma_div_is_ordered(m * b, num, m);
        lemma_div_is_ordered(num, m * a, m);
    }
}

/// Quotient of `num` by `m` rounded towards negative infinity.
pub fn floor_div(num: i128, m: u128) -> (q: i128)
    requires
        0 < m <= i128::MAX,
    ensures
        q == num as int / m as int,
{
    if num >= 0 {
        let q: u128 = (num as u128) / m;
        proof {
            lemma_div_pos_is_pos(num as int, m as int);
            lemma_div_is_ordered_by_denominator(num as int, 1, m as int);
            lemma_div_basics(num as int);
        }
        q as i128
    } else {
        // num = -(pos + 1), so floor(num / m) = -(floor(pos / m) + 1)
        let pos: u128 = (-(num + 1)) as u128;
        let q: u128 = pos / m;
        proof {
            let p = pos as int;
            let d = m as int;
            lemma_div_pos_is_pos(p, d);
            lemma_div_is_ordered_by_denominator(p, 1, d);
            lemma_div_basics(p);
            lemma_fundamental_div_mod(p, d);
            lemma_mod_bound(p, d);
            // num = d * (-(q + 1)) + (d - 1 - p % d), with the last term in [0, d)
            let r = d - 1 - p % d;
            assert(num as int == d * (-(q as int + 1)) + r) by (nonlinear_arith)
                requires
                    num as int == -(p + 1),
                    p == d * (p / d) + p % d,
                    q as int == p / d,
                    r == d - 1 - p % d,
            ;
            lemma_fundamental_div_mod_converse(num as int, d, -(q as int + 1), r);
        }
        -(q as i128) - 1
    }
}

/// Executable `lerp` on machine integers, at parameter `i / (n + 1)`.
pub fn interpolate(a: i64, b: i64, i: usize, n: usize) -> (r: i64)
    requires
        i <= n,
    ensures
        r == lerp(a as int, b as int, i as int, n as int + 1),
{
    let m: u128 = (n as u128) + 1;
    let rest: u128 = m - (i as u128);
    proof {
        let lo: int = -0x8000_0000_0000_0000;
        let hi: int = 0x7fff_ffff_ffff_ffff;
        assert(lo * rest <= a * rest <= hi * rest) by (nonlinear_arith)
            requires
                lo <= a <= hi,
                0 <= rest,
        ;
        assert(lo * i <= b * i <= hi * i) by (nonlinear_arith)
            requires
                lo <= b <= hi,
                0 <= i,
        ;
        assert(lo * rest + lo * i == lo * m && hi * rest + hi * i == hi * m) by (nonlinear_arith)
            requires
                rest + i == m,
        ;
        assert(lo * m >= lo * 0x1_0000_0000_0000_0000 && hi * m <= hi * 0x1_0000_0000_0000_0000)
            by (nonlinear_arith)
            requires
                0 <= m <= 0x1_0000_0000_0000_0000,
                lo == -0x8000_0000_0000_0000,
                hi == 0x7fff_ffff_ffff_ffff,
        ;
    }
    let left: i128 = (a as i128) * (rest as i128);
    let right: i128 = (b as i128) * (i as i128);
    let q: i128 = floor_div(left + right, m);
    proof {
        lemma_lerp_bounds(a as int, b as int, i as int, m as int);
    }
    q as i64
}

} // verus!
