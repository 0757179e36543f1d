//! Step-size quantization: snapping a value to the nearest multiple of a
//! positive step, rounding up, down, or to nearest (ties away from zero).

use vstd::prelude::*;
use vstd::arithmetic::div_mod::{
    lemma_div_is_ordered, lemma_div_is_ordered_by_denominator, lemma_div_multiples_vanish_fancy,
    lemma_div_nonincreasing, lemma_div_pos_is_pos, lemma_fundamental_div_mod, lemma_mod_bound,
};
use crate::rational::{
    lemma_mul_basics, rat_eq, rat_fits, rat_is_pos, rat_le, rat_lt, rat_sub, rat_wf,
    Rat, Rational,
};

verus! {

/// Numerator of the exact ratio `n / step` (the denominators stay positive
/// for well-formed arguments with a positive step).
pub open spec fn ratio_num(n: Rat, step: Rat) -> int {
    n.n * step.d
}

/// Denominator of the exact ratio `n / step`.
pub open spec fn ratio_den(n: Rat, step: Rat) -> int {
    n.d * step.n
}

/// `floor(n / step)` as an integer.
pub open spec fn floor_ratio(n: Rat, step: Rat) -> int {
    ratio_num(n, step) / ratio_den(n, step)
}

/// `ceil(n / step)` as an integer.
pub open spec fn ceil_ratio(n: Rat, step: Rat) -> int {
    -((-ratio_num(n, step)) / ratio_den(n, step))
}

/// `p / q` rounded to the nearest integer, ties away from zero (`q > 0`).
pub open spec fn round_half_div(p: int, q: int) -> int {
    if p >= 0 {
        (2 * p + q) / (2 * q)
    } else {
        -((2 * (-p) + q) / (2 * q))
    }
}

/// `n / step` rounded to the nearest integer, ties away from zero.
pub open spec fn nearest_ratio(n: Rat, step: Rat) -> int {
    round_half_div(ratio_num(n, step), ratio_den(n, step))
}

/// The `k`-th multiple of the step.
pub open spec fn rat_scale(k: int, step: Rat) -> Rat {
    Rat { n: k * step.n, d: step.d }
}

/// Whether `v` equals some integer multiple of `step`.
pub open spec fn rat_is_multiple_of(v: Rat, step: Rat) -> bool {
    exists|k: int| rat_eq(v, rat_scale(k, step))
}

/// The greatest multiple of `step` that is `<= n`.
pub open spec fn spec_round_dn(n: Rat, step: Rat) -> Rat {
    rat_scale(floor_ratio(n, step), step)
}

/// The least multiple of `step` that is `>= n`.
pub open spec fn spec_round_up(n: Rat, step: Rat) -> Rat {
    rat_scale(ceil_ratio(n, step), step)
}

/// The multiple of `step` nearest to `n`, ties away from zero.
pub open spec fn spec_round_nearest(n: Rat, step: Rat) -> Rat {
    rat_scale(nearest_ratio(n, step), step)
}

/// `10^e`.
pub open spec fn pow10(e: nat) -> int
    decreases e,
{
    if e == 0 {
        1
    } else {
        10 * pow10((e - 1) as nat)
    }
}

/// `n` rounded to `dp` decimal places, ties away from zero.
pub open spec fn spec_round_to_decimal_places(n: Rat, dp: nat) -> Rat {
    spec_round_nearest(n, Rat { n: 1, d: pow10(dp) })
}

/// Euclidean division is pinned down by the bracketing of its dividend.
pub proof fn lemma_div_unique(p: int, q: int, k: int)
    requires
        0 < q,
        k * q <= p,
        p < (k + 1) * q,
    ensures
        p / q == k,
{
    lemma_fundamental_div_mod(p, q);
    lemma_mod_bound(p, q);
    let j: int = p / q;
    let r: int = p % q;
    assert(j == k) by (nonlinear_arith)
        requires
            0 < q,
            k * q <= p,
            p < (k + 1) * q,
            p == q * j + r,
            0 <= r < q,
    ;
}

proof fn lemma_pow10_pos(e: nat)
    ensures
        pow10(e) >= 1,
    decreases e,
{
    if e > 0 {
        lemma_pow10_pos((e - 1) as nat);
    }
}

proof fn lemma_pow10_mono(a: nat, b: nat)
    requires
        a <= b,
    ensures
        pow10(a) <= pow10(b),
    decreases b,
{
    if a < b {
        lemma_pow10_mono(a, (b - 1) as nat);
        lemma_pow10_pos((b - 1) as nat);
    }
}

/// Floor division on 128-bit values that came from 64-bit products.
fn floor_div(p: i128, q: i128) -> (r: i128)
    requires
        0 < q <= 0x4000_0000_0000_0000_0000_0000_0000_0000,
        -0x4000_0000_0000_0000_0000_0000_0000_0000 <= p
            <= 0x4000_0000_0000_0000_0000_0000_0000_0000,
    ensures
        r as int == p as int / q as int,
        -0x6000_0000_0000_0000_0000_0000_0000_0000 <= r
            <= 0x6000_0000_0000_0000_0000_0000_0000_0000,
{
    if p >= 0 {
        let t: u128 = (p as u128) / (q as u128);
        proof {
            lemma_div_pos_is_pos(p as int, q as int);
            lemma_div_nonincreasing(p as int, q as int);
        }
        t as i128
    } else {
        let m: u128 = (-p) as u128;
        let qu: u128 = q as u128;
        let t: u128 = (m + qu - 1) / qu;
        proof {
            let pi: int = p as int;
            let qi: int = q as int;
            let mi: int = m as int;
            let ti: int = t as int;
            lemma_div_pos_is_pos(mi + qi - 1, qi);
            lemma_div_multiples_vanish_fancy(mi, qi - 1, qi);
            assert(mi <= qi * mi) by (nonlinear_arith)
                requires
                    mi >= 0,
                    qi >= 1,
            ;
            lemma_div_is_ordered(mi + qi - 1, qi * mi + (qi - 1), qi);
            lemma_fundamental_div_mod(mi + qi - 1, qi);
            lemma_mod_bound(mi + qi - 1, qi);
            let ri: int = (mi + qi - 1) % qi;
            assert((-ti) * qi <= pi && pi < ((-ti) + 1) * qi) by (nonlinear_arith)
                requires
                    pi == -mi,
                    mi + qi - 1 == qi * ti + ri,
                    0 <= ri < qi,
            ;
            lemma_div_unique(pi, qi, -ti);
        }
        -(t as i128)
    }
}

/// Ceiling division on 128-bit values that came from 64-bit products.
fn ceil_div(p: i128, q: i128) -> (r: i128)
    requires
        0 < q <= 0x4000_0000_0000_0000_0000_0000_0000_0000,
        -0x4000_0000_0000_0000_0000_0000_0000_0000 <= p
            <= 0x4000_0000_0000_0000_0000_0000_0000_0000,
    ensures
        r as int == -((-(p as int)) / (q as int)),
        -0x6000_0000_0000_0000_0000_0000_0000_0000 <= r
            <= 0x6000_0000_0000_0000_0000_0000_0000_0000,
{
    let f: i128 = floor_div(-p, q);
    -f
}

/// Round-to-nearest division, ties away from zero, on 128-bit values that
/// came from 64-bit products.
fn nearest_div(p: i128, q: i128) -> (r: i128)
    requires
        0 < q <= 0x4000_0000_0000_0000_0000_0000_0000_0000,
        -0x4000_0000_0000_0000_0000_0000_0000_0000 <= p
            <= 0x4000_0000_0000_0000_0000_0000_0000_0000,
    ensures
        r as int == round_half_div(p as int, q as int),
        -0x6000_0000_0000_0000_0000_0000_0000_0000 <= r
            <= 0x6000_0000_0000_0000_0000_0000_0000_0000,
{
    if p >= 0 {
        let t: u128 = (2 * (p as u128) + (q as u128)) / (2 * (q as u128));
        proof {
            let pi: int = p as int;
            let qi: int = q as int;
            lemma_div_pos_is_pos(2 * pi + qi, 2 * qi);
            lemma_div_is_ordered_by_denominator(2 * pi + qi, 2, 2 * qi);
        }
        t as i128
    } else {
        let m: u128 = (-p) as u128;
        let t: u128 = (2 * m + (q as u128)) / (2 * (q as u128));
        proof {
            let mi: int = m as int;
            let qi: int = q as int;
            lemma_div_pos_is_pos(2 * mi + qi, 2 * qi);
            lemma_div_is_ordered_by_denominator(2 * mi + qi, 2, 2 * qi);
        }
        -(t as i128)
    }
}

/// Builds the `k`-th multiple of the step.
fn scale_step(k: i128, step: &Rational) -> (r: Option<Rational>)
    requires
        step.wf(),
        rat_is_pos(step@),
        -0x6000_0000_0000_0000_0000_0000_0000_0000 <= k
            <= 0x6000_0000_0000_0000_0000_0000_0000_0000,
    ensures
        r is Some <==> rat_fits(rat_scale(k as int, step@)),
        r matches Some(c) ==> c.wf() && c@ == rat_scale(k as int, step@),
{
    if k < i64::MIN as i128 {
        proof {
            assert((k as int) * (step.num as int) < i64::MIN) by (nonlinear_arith)
                requires
                    (k as int) < -0x8000_0000_0000_0000,
                    (step.num as int) >= 1,
            ;
        }
        None
    } else if k > i64::MAX as i128 {
        proof {
            assert((k as int) * (step.num as int) > i64::MAX) by (nonlinear_arith)
                requires
                    (k as int) > 0x7fff_ffff_ffff_ffff,
                    (step.num as int) >= 1,
            ;
        }
        None
    } else {
        proof {
            lemma_mul_basics(k as int, step.num as int);
        }
        Rational::from_i128(k * (step.num as i128), step.den as i128)
    }
}

/// The greatest multiple of `step` that is `<= n`; `None` exactly when that
/// multiple does not fit the representation.
pub fn round_dn(n: &Rational, step: &Rational) -> (r: Option<Rational>)
    requires
        n.wf(),
        step.wf(),
        rat_is_pos(step@),
    ensures
        r is Some <==> rat_fits(spec_round_dn(n@, step@)),
        r matches Some(c) ==> c.wf() && c@ == spec_round_dn(n@, step@),
{
    proof {
        lemma_mul_basics(n.num as int, step.den as int);
        lemma_mul_basics(n.den as int, step.num as int);
    }
    let p: i128 = (n.num as i128) * (step.den as i128);
    let q: i128 = (n.den as i128) * (step.num as i128);
    let k: i128 = floor_div(p, q);
    scale_step(k, step)
}

/// The least multiple of `step` that is `>= n`; `None` exactly when that
/// multiple does not fit the representation.
pub fn round_up(n: &Rational, step: &Rational) -> (r: Option<Rational>)
    requires
        n.wf(),
        step.wf(),
        rat_is_pos(step@),
    ensures
        r is Some <==> rat_fits(spec_round_up(n@, step@)),
        r matches Some(c) ==> c.wf() && c@ == spec_round_up(n@, step@),
{
    proof {
        lemma_mul_basics(n.num as int, step.den as int);
        lemma_mul_basics(n.den as int, step.num as int);
    }
    let p: i128 = (n.num as i128) * (step.den as i128);
    let q: i128 = (n.den as i128) * (step.num as i128);
    let k: i128 = ceil_div(p, q);
    scale_step(k, step)
}

/// The multiple of `step` nearest to `n`, ties away from zero; `None`
/// exactly when that multiple does not fit the representation.
pub fn round_(n: &Rational, step: &Rational) -> (r: Option<Rational>)
    requires
        n.wf(),
        step.wf(),
        rat_is_pos(step@),
    ensures
        r is Some <==> rat_fits(spec_round_nearest(n@, step@)),
        r matches Some(c) ==> c.wf() && c@ == spec_round_nearest(n@, step@),
{
    proof {
        lemma_mul_basics(n.num as int, step.den as int);
        lemma_mul_basics(n.den as int, step.num as int);
    }
    let p: i128 = (n.num as i128) * (step.den as i128);
    let q: i128 = (n.den as i128) * (step.num as i128);
    let k: i128 = nearest_div(p, q);
    scale_step(k, step)
}

/// `10^e` for `e <= 18` (the largest power of ten below `i64::MAX`).
fn pow10_i64(e: u32) -> (r: i64)
    requires
        e <= 18,
    ensures
        r as int == pow10(e as nat),
        r >= 1,
{
    let mut acc: i64 = 1;
    let mut i: u32 = 0;
    while i < e
        invariant
            i <= e <= 18,
            acc as int == pow10(i as nat),
            acc >= 1,
        decreases e - i,
    {
        proof {
            lemma_pow10_mono((i + 1) as nat, 18);
            assert(pow10(18) == 1000000000000000000) by {
                reveal_with_fuel(pow10, 20);
            }
        }
        acc = acc * 10;
        i = i + 1;
    }
    acc
}

/// `n` rounded to `decimal_places` decimal places, ties away from zero;
/// `None` exactly when the result does not fit the representation.
pub fn round_to_decimal_places(n: &Rational, decimal_places: u32) -> (r: Option<Rational>)
    requires
        n.wf(),
        decimal_places <= 18,
    ensures
        r is Some <==> rat_fits(spec_round_to_decimal_places(n@, decimal_places as nat)),
        r matches Some(c) ==> c.wf() && c@ == spec_round_to_decimal_places(
            n@,
            decimal_places as nat,
        ),
{
    let den: i64 = pow10_i64(decimal_places);
    let step = Rational { num: 1, den };
    proof {
        lemma_pow10_pos(decimal_places as nat);
    }
    round_(n, &step)
}

/// Every rounded value is an exact multiple of the step.
pub proof fn lemma_scale_is_multiple(k: int, step: Rat)
    ensures
        rat_is_multiple_of(rat_scale(k, step), step),
{
    assert(rat_eq(rat_scale(k, step), rat_scale(k, step)));
}

/// Rounding down never exceeds the argument and rounding up never falls
/// below it, and each differs from the argument by less than one step.
pub proof fn lemma_round_bounds(n: Rat, step: Rat)
    requires
        rat_wf(n),
        rat_wf(step),
        rat_is_pos(step),
    ensures
        rat_le(spec_round_dn(n, step), n),
        rat_le(n, spec_round_up(n, step)),
        rat_lt(rat_sub(n, spec_round_dn(n, step)), step),
        rat_lt(rat_sub(spec_round_up(n, step), n), step),
{
    let p: int = ratio_num(n, step);
    let q: int = ratio_den(n, step);
    assert(q > 0) by (nonlinear_arith)
        requires
            n.d > 0,
            step.n > 0,
            q == n.d * step.n,
    ;
    let k: int = p / q;
    lemma_fundamental_div_mod(p, q);
    lemma_mod_bound(p, q);
    let r: int = p % q;
    assert((k * step.n) * n.d <= n.n * step.d) by (nonlinear_arith)
        requires
            p == q * k + r,
            0 <= r,
            p == n.n * step.d,
            q == n.d * step.n,
    ;
    assert((n.n * step.d - (k * step.n) * n.d) * step.d < step.n * (n.d * step.d))
        by (nonlinear_arith)
        requires
            p == q * k + r,
            0 <= r < q,
            p == n.n * step.d,
            q == n.d * step.n,
            step.d > 0,
    ;
    let j: int = (-p) / q;
    let u: int = ceil_ratio(n, step);
    lemma_fundamental_div_mod(-p, q);
    lemma_mod_bound(-p, q);
    let s: int = (-p) % q;
    assert(n.n * step.d <= (u * step.n) * n.d) by (nonlinear_arith)
        requires
            -p == q * j + s,
            0 <= s,
            u == -j,
            p == n.n * step.d,
            q == n.d * step.n,
    ;
    assert(((u * step.n) * n.d - n.n * step.d) * step.d < step.n * (step.d * n.d))
        by (nonlinear_arith)
        requires
            -p == q * j + s,
            0 <= s < q,
            u == -j,
            p == n.n * step.d,
            q == n.d * step.n,
            step.d > 0,
    ;
}

/// Rounding to the nearest multiple is idempotent: a value that is already
/// the rounded multiple rounds to itself, bit for bit.
pub proof fn lemma_round_nearest_idempotent(n: Rat, step: Rat)
    requires
        rat_wf(n),
        rat_wf(step),
        rat_is_pos(step),
    ensures
        spec_round_nearest(spec_round_nearest(n, step), step) == spec_round_nearest(n, step),
{
    let m: int = nearest_ratio(n, step);
    let n2: Rat = spec_round_nearest(n, step);
    let p2: int = ratio_num(n2, step);
    let q2: int = ratio_den(n2, step);
    assert(q2 > 0) by (nonlinear_arith)
        requires
            step.d > 0,
            step.n > 0,
            q2 == step.d * step.n,
    ;
    assert(p2 == q2 * m) by (nonlinear_arith)
        requires
            p2 == (m * step.n) * step.d,
            q2 == step.d * step.n,
    ;
    if m >= 0 {
        assert(p2 >= 0) by (nonlinear_arith)
            requires
                p2 == q2 * m,
                q2 > 0,
                m >= 0,
        ;
        lemma_div_multiples_vanish_fancy(m, q2, 2 * q2);
        assert(2 * p2 + q2 == (2 * q2) * m + q2) by (nonlinear_arith)
            requires
                p2 == q2 * m,
        ;
        assert(nearest_ratio(n2, step) == m);
    } else {
        assert(p2 < 0) by (nonlinear_arith)
            requires
                p2 == q2 * m,
                q2 > 0,
                m < 0,
        ;
        lemma_div_multiples_vanish_fancy(-m, q2, 2 * q2);
        assert(2 * (-p2) + q2 == (2 * q2) * (-m) + q2) by (nonlinear_arith)
            requires
                p2 == q2 * m,
        ;
        assert(nearest_ratio(n2, step) == m);
    }
}

} // verus!
