//! Lagrange interpolation: the unique polynomial through the points
//! `(xs[i], ys[i])`, evaluated at a query point.

use vstd::prelude::*;
use crate::rational::{
    rat_add, rat_div, rat_eq, rat_fits, rat_mul, rat_sub, rat_zero, Rat, Rational,
};

verus! {

/// The models of a sequence of representations.
pub open spec fn views(s: Seq<Rational>) -> Seq<Rat> {
    s.map_values(|r: Rational| r@)
}

/// The error of [`interpolate`]: the coordinate sequences disagree in
/// length, or an intermediate did not fit the representation.
#[derive(Clone, Copy, Debug, PartialEq, Eq, Structural)]
pub enum InterpError {
    LengthMismatch,
    Overflow,
}

/// The `i`-th Lagrange basis term after its first `j` factors:
/// `ys[i] * prod_{k < j, k != i} (x - xs[k]) / (xs[i] - xs[k])`.
pub open spec fn term_val(x: Rat, xs: Seq<Rat>, ys: Seq<Rat>, i: int, j: int) -> Rat
    decreases j,
{
    if j <= 0 {
        ys[i]
    } else if j - 1 == i {
        term_val(x, xs, ys, i, j - 1)
    } else {
        rat_mul(
            term_val(x, xs, ys, i, j - 1),
            rat_div(rat_sub(x, xs[j - 1]), rat_sub(xs[i], xs[j - 1])),
        )
    }
}

/// When every intermediate of the first `j` factors of the `i`-th term fits
/// the representation.
pub open spec fn term_fits(x: Rat, xs: Seq<Rat>, ys: Seq<Rat>, i: int, j: int) -> bool
    decreases j,
{
    if j <= 0 {
        true
    } else if j - 1 == i {
        term_fits(x, xs, ys, i, j - 1)
    } else {
        term_fits(x, xs, ys, i, j - 1) && {
            let num = rat_sub(x, xs[j - 1]);
            let den = rat_sub(xs[i], xs[j - 1]);
            rat_fits(num) && rat_fits(den) && rat_fits(rat_div(num, den)) && rat_fits(
                rat_mul(term_val(x, xs, ys, i, j - 1), rat_div(num, den)),
            )
        }
    }
}

/// The sum of the first `i` completed Lagrange terms.
pub open spec fn sum_val(x: Rat, xs: Seq<Rat>, ys: Seq<Rat>, i: int) -> Rat
    decreases i,
{
    if i <= 0 {
        rat_zero()
    } else {
        rat_add(sum_val(x, xs, ys, i - 1), term_val(x, xs, ys, i - 1, xs.len() as int))
    }
}

/// When every intermediate of the first `i` completed terms and their
/// running sum fits the representation.
pub open spec fn sum_fits(x: Rat, xs: Seq<Rat>, ys: Seq<Rat>, i: int) -> bool
    decreases i,
{
    if i <= 0 {
        true
    } else {
        sum_fits(x, xs, ys, i - 1) && term_fits(x, xs, ys, i - 1, xs.len() as int) && rat_fits(
            rat_add(sum_val(x, xs, ys, i - 1), term_val(x, xs, ys, i - 1, xs.len() as int)),
        )
    }
}

/// The Lagrange interpolation of `(xs, ys)` evaluated at `x`:
/// `sum_i ys[i] * prod_{j != i} (x - xs[j]) / (xs[i] - xs[j])`.
pub open spec fn spec_interpolate(x: Rat, xs: Seq<Rat>, ys: Seq<Rat>) -> Rat {
    sum_val(x, xs, ys, xs.len() as int)
}

/// When every intermediate of [`spec_interpolate`] fits the representation.
pub open spec fn interp_fits(x: Rat, xs: Seq<Rat>, ys: Seq<Rat>) -> bool {
    sum_fits(x, xs, ys, xs.len() as int)
}

proof fn lemma_term_fits_mono(x: Rat, xs: Seq<Rat>, ys: Seq<Rat>, i: int, j1: int, j2: int)
    requires
        0 <= j1 <= j2,
        !term_fits(x, xs, ys, i, j1),
    ensures
        !term_fits(x, xs, ys, i, j2),
    decreases j2,
{
    if j2 > j1 {
        lemma_term_fits_mono(x, xs, ys, i, j1, j2 - 1);
    }
}

proof fn lemma_sum_fits_mono(x: Rat, xs: Seq<Rat>, ys: Seq<Rat>, i1: int, i2: int)
    requires
        0 <= i1 <= i2,
        !sum_fits(x, xs, ys, i1),
    ensures
        !sum_fits(x, xs, ys, i2),
    decreases i2,
{
    if i2 > i1 {
        lemma_sum_fits_mono(x, xs, ys, i1, i2 - 1);
    }
}

/// Evaluates the Lagrange interpolation of `(xs, ys)` at `x`.  The
/// x-coordinates are pairwise distinct (caller responsibility: a duplicate
/// would divide by zero).  `Err(LengthMismatch)` exactly when the sequences
/// disagree in length; `Err(Overflow)` exactly when an intermediate does not
/// fit the representation.
pub fn interpolate(x: &Rational, xs: &Vec<Rational>, ys: &Vec<Rational>) -> (r: Result<
    Rational,
    InterpError,
>)
    requires
        x.wf(),
        forall|k: int| 0 <= k < xs@.len() ==> (#[trigger] xs@[k]).wf(),
        forall|k: int| 0 <= k < ys@.len() ==> (#[trigger] ys@[k]).wf(),
        forall|a: int, b: int|
            0 <= a < xs@.len() && 0 <= b < xs@.len() && a != b ==> !rat_eq(xs@[a]@, xs@[b]@),
    ensures
        r is Ok <==> (xs@.len() == ys@.len() && interp_fits(x@, views(xs@), views(ys@))),
        r matches Ok(c) ==> c.wf() && c@ == spec_interpolate(x@, views(xs@), views(ys@)),
        r == Result::<Rational, InterpError>::Err(InterpError::LengthMismatch) <==> xs@.len()
            != ys@.len(),
{
    let n = xs.len();
    if n != ys.len() {
        return Err(InterpError::LengthMismatch);
    }
    let mut result = Rational::from_int(0);
    let mut i: usize = 0;
    while i < n
        invariant
            n == xs@.len(),
            n == ys@.len(),
            i <= n,
            x.wf(),
            forall|k: int| 0 <= k < xs@.len() ==> (#[trigger] xs@[k]).wf(),
            forall|k: int| 0 <= k < ys@.len() ==> (#[trigger] ys@[k]).wf(),
            forall|a: int, b: int|
                0 <= a < xs@.len() && 0 <= b < xs@.len() && a != b ==> !rat_eq(xs@[a]@, xs@[b]@),
            result.wf(),
            result@ == sum_val(x@, views(xs@), views(ys@), i as int),
            sum_fits(x@, views(xs@), views(ys@), i as int),
        decreases n - i,
    {
        let mut term = ys[i];
        let mut j: usize = 0;
        while j < n
            invariant
                n == xs@.len(),
                n == ys@.len(),
                i < n,
                j <= n,
                x.wf(),
                forall|k: int| 0 <= k < xs@.len() ==> (#[trigger] xs@[k]).wf(),
                forall|k: int| 0 <= k < ys@.len() ==> (#[trigger] ys@[k]).wf(),
                forall|a: int, b: int|
                    0 <= a < xs@.len() && 0 <= b < xs@.len() && a != b ==> !rat_eq(
                        xs@[a]@,
                        xs@[b]@,
                    ),
                result.wf(),
                result@ == sum_val(x@, views(xs@), views(ys@), i as int),
                sum_fits(x@, views(xs@), views(ys@), i as int),
                term.wf(),
                term@ == term_val(x@, views(xs@), views(ys@), i as int, j as int),
                term_fits(x@, views(xs@), views(ys@), i as int, j as int),
            decreases n - j,
        {
            if i != j {
                let nd = match x.sub(&xs[j]) {
                    Some(v) => v,
                    None => {
                        proof {
                            lemma_term_fits_mono(
                                x@,
                                views(xs@),
                                views(ys@),
                                i as int,
                                j as int + 1,
                                n as int,
                            );
                            lemma_sum_fits_mono(
                                x@,
                                views(xs@),
                                views(ys@),
                                i as int + 1,
                                n as int,
                            );
                        }
                        return Err(InterpError::Overflow);
                    },
                };
                let dd = match xs[i].sub(&xs[j]) {
                    Some(v) => v,
                    None => {
                        proof {
                            lemma_term_fits_mono(
                                x@,
                                views(xs@),
                                views(ys@),
                                i as int,
                                j as int + 1,
                                n as int,
                            );
                            lemma_sum_fits_mono(
                                x@,
                                views(xs@),
                                views(ys@),
                                i as int + 1,
                                n as int,
                            );
                        }
                        return Err(InterpError::Overflow);
                    },
                };
                proof {
                    assert(!rat_eq(xs@[i as int]@, xs@[j as int]@));
                }
                let ratio = match nd.div(&dd) {
                    Some(v) => v,
                    None => {
                        proof {
                            lemma_term_fits_mono(
                                x@,
                                views(xs@),
                                views(ys@),
                                i as int,
                                j as int + 1,
                                n as int,
                            );
                            lemma_sum_fits_mono(
                                x@,
                                views(xs@),
                                views(ys@),
                                i as int + 1,
                                n as int,
                            );
                        }
                        return Err(InterpError::Overflow);
                    },
                };
                term = match term.mul(&ratio) {
                    Some(v) => v,
                    None => {
                        proof {
                            lemma_term_fits_mono(
                                x@,
                                views(xs@),
                                views(ys@),
                                i as int,
                                j as int + 1,
                                n as int,
                            );
                            lemma_sum_fits_mono(
                                x@,
                                views(xs@),
                                views(ys@),
                                i as int + 1,
                                n as int,
                            );
                        }
                        return Err(InterpError::Overflow);
                    },
                };
            }
            j = j + 1;
        }
        result = match result.add(&term) {
            Some(v) => v,
            None => {
                proof {
                    lemma_sum_fits_mono(x@, views(xs@), views(ys@), i as int + 1, n as int);
                }
                return Err(InterpError::Overflow);
            },
        };
        i = i + 1;
    }
    Ok(result)
}

} // verus!
