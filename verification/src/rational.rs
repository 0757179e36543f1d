//! An exact rational number with a fixed-width representation.
//!
//! [`Rational`] stores a 64-bit numerator and a positive 64-bit denominator.
//! Arithmetic is exact: each operation either returns the mathematically
//! exact result or `None` when that result does not fit the representation.
//! Specifications speak of the unbounded model [`Rat`]; two values denote the
//! same rational when they cross-multiply equally ([`rat_eq`]) — no normal
//! form is imposed on the representation.

use vstd::prelude::*;

verus! {

/// Mathematical model of a rational number: an unbounded numerator and
/// denominator.  Well-formed models ([`rat_wf`]) have a positive denominator.
pub ghost struct Rat {
    pub n: int,
    pub d: int,
}

/// A well-formed model has a positive denominator.
pub open spec fn rat_wf(a: Rat) -> bool {
    a.d > 0
}

/// Value equality by cross-multiplication: `a.n / a.d == b.n / b.d`.
pub open spec fn rat_eq(a: Rat, b: Rat) -> bool {
    a.n * b.d == b.n * a.d
}

/// Order by cross-multiplication (meaningful for well-formed models).
pub open spec fn rat_le(a: Rat, b: Rat) -> bool {
    a.n * b.d <= b.n * a.d
}

/// Strict order by cross-multiplication (meaningful for well-formed models).
pub open spec fn rat_lt(a: Rat, b: Rat) -> bool {
    a.n * b.d < b.n * a.d
}

pub open spec fn rat_is_zero(a: Rat) -> bool {
    a.n == 0
}

pub open spec fn rat_is_pos(a: Rat) -> bool {
    a.n > 0
}

pub open spec fn rat_is_neg(a: Rat) -> bool {
    a.n < 0
}

pub open spec fn rat_zero() -> Rat {
    Rat { n: 0, d: 1 }
}

pub open spec fn rat_one() -> Rat {
    Rat { n: 1, d: 1 }
}

pub open spec fn rat_from_int(i: int) -> Rat {
    Rat { n: i, d: 1 }
}

pub open spec fn rat_add(a: Rat, b: Rat) -> Rat {
    Rat { n: a.n * b.d + b.n * a.d, d: a.d * b.d }
}

pub open spec fn rat_sub(a: Rat, b: Rat) -> Rat {
    Rat { n: a.n * b.d - b.n * a.d, d: a.d * b.d }
}

pub open spec fn rat_mul(a: Rat, b: Rat) -> Rat {
    Rat { n: a.n * b.n, d: a.d * b.d }
}

pub open spec fn rat_neg(a: Rat) -> Rat {
    Rat { n: -a.n, d: a.d }
}

pub open spec fn int_abs(x: int) -> int {
    if x >= 0 {
        x
    } else {
        -x
    }
}

pub open spec fn rat_abs(a: Rat) -> Rat {
    Rat { n: int_abs(a.n), d: a.d }
}

/// Exact division `a / b`, defined for `b.n != 0`; the sign of `b.n` is moved
/// into the numerator so that the result's denominator stays positive.
pub open spec fn rat_div(a: Rat, b: Rat) -> Rat {
    if b.n >= 0 {
        Rat { n: a.n * b.d, d: a.d * b.n }
    } else {
        Rat { n: -(a.n * b.d), d: a.d * -b.n }
    }
}

/// The larger of the two values (the second on value equality).
pub open spec fn rat_max(a: Rat, b: Rat) -> Rat {
    if rat_le(a, b) {
        b
    } else {
        a
    }
}

pub open spec fn fits_i64(x: int) -> bool {
    i64::MIN <= x <= i64::MAX
}

/// Whether a model is representable by [`Rational`] as it stands.
pub open spec fn rat_fits(a: Rat) -> bool {
    fits_i64(a.n) && fits_i64(a.d)
}

/// Interval and sign facts about a product of two 64-bit-range factors, used
/// to show that intermediate 128-bit arithmetic cannot overflow.
pub proof fn lemma_mul_basics(a: int, b: int)
    by (nonlinear_arith)
    requires
        -0x8000_0000_0000_0000 <= a <= 0x7fff_ffff_ffff_ffff,
        -0x8000_0000_0000_0000 <= b <= 0x7fff_ffff_ffff_ffff,
    ensures
        -0x4000_0000_0000_0000_0000_0000_0000_0000 <= a * b
            <= 0x4000_0000_0000_0000_0000_0000_0000_0000,
        a * b == b * a,
        a * (-b) == -(a * b),
        (-a) * b == -(a * b),
        a > 0 && b > 0 ==> a * b > 0,
        a < 0 && b > 0 ==> a * b < 0,
        a > 0 && b < 0 ==> a * b < 0,
        a == 0 ==> a * b == 0,
        b == 0 ==> a * b == 0,
        1 <= b ==> -0x3fff_ffff_ffff_ffff_8000_0000_0000_0000 <= a * b
            <= 0x3fff_ffff_ffff_ffff_8000_0000_0000_0000,
{
}

/// The order by cross-multiplication is transitive over well-formed models.
pub proof fn lemma_rat_le_trans(a: Rat, b: Rat, c: Rat)
    requires
        rat_wf(a),
        rat_wf(b),
        rat_wf(c),
        rat_le(a, b),
        rat_le(b, c),
    ensures
        rat_le(a, c),
{
    assert(a.n * c.d <= c.n * a.d) by (nonlinear_arith)
        requires
            a.d > 0,
            b.d > 0,
            c.d > 0,
            a.n * b.d <= b.n * a.d,
            b.n * c.d <= c.n * b.d,
    ;
}

/// An exact rational: `num / den` with `den > 0` ([`Rational::wf`]).
///
/// The derived `==` compares representations field by field; value equality
/// (`2/4 == 1/2`) is [`Rational::equivalent`].
#[derive(Clone, Copy, Debug, PartialEq, Eq, Structural)]
pub struct Rational {
    pub num: i64,
    pub den: i64,
}

impl View for Rational {
    type V = Rat;

    open spec fn view(&self) -> Rat {
        Rat { n: self.num as int, d: self.den as int }
    }
}

impl Rational {
    /// Representation invariant: the denominator is positive.
    pub open spec fn wf(&self) -> bool {
        self.den > 0
    }

    /// Builds `num / den`, moving a negative denominator's sign into the
    /// numerator.  `None` exactly when `den == 0` or the sign change does not
    /// fit (`den < 0` with `num` or `den` at `i64::MIN`).
    pub fn new(num: i64, den: i64) -> (r: Option<Rational>)
        ensures
            r is Some <==> (den > 0 || (den < 0 && num > i64::MIN && den > i64::MIN)),
            r matches Some(c) ==> c.wf() && (den > 0 ==> c@ == (Rat {
                n: num as int,
                d: den as int,
            })) && (den < 0 ==> c@ == (Rat { n: -(num as int), d: -(den as int) })),
    {
        if den > 0 {
            Some(Rational { num, den })
        } else if den < 0 && num > i64::MIN && den > i64::MIN {
            Some(Rational { num: -num, den: -den })
        } else {
            None
        }
    }

    /// The integer `i` as a rational.
    pub fn from_int(i: i64) -> (r: Rational)
        ensures
            r.wf(),
            r@ == rat_from_int(i as int),
    {
        Rational { num: i, den: 1 }
    }

    /// Builds a value from 128-bit parts when both fit the representation.
    pub(crate) fn from_i128(n: i128, d: i128) -> (r: Option<Rational>)
        requires
            0 < d,
        ensures
            r is Some <==> fits_i64(n as int) && fits_i64(d as int),
            r matches Some(c) ==> c.wf() && c@ == (Rat { n: n as int, d: d as int }),
    {
        if n >= i64::MIN as i128 && n <= i64::MAX as i128 && d <= i64::MAX as i128 {
            Some(Rational { num: n as i64, den: d as i64 })
        } else {
            None
        }
    }

    pub fn is_zero(&self) -> (r: bool)
        ensures
            r == rat_is_zero(self@),
    {
        self.num == 0
    }

    pub fn is_pos(&self) -> (r: bool)
        ensures
            r == rat_is_pos(self@),
    {
        self.num > 0
    }

    pub fn is_neg(&self) -> (r: bool)
        ensures
            r == rat_is_neg(self@),
    {
        self.num < 0
    }

    pub fn le(&self, other: &Rational) -> (r: bool)
        requires
            self.wf(),
            other.wf(),
        ensures
            r == rat_le(self@, other@),
    {
        proof {
            lemma_mul_basics(self.num as int, other.den as int);
            lemma_mul_basics(other.num as int, self.den as int);
        }
        (self.num as i128) * (other.den as i128) <= (other.num as i128) * (self.den as i128)
    }

    pub fn lt(&self, other: &Rational) -> (r: bool)
        requires
            self.wf(),
            other.wf(),
        ensures
            r == rat_lt(self@, other@),
    {
        proof {
            lemma_mul_basics(self.num as int, other.den as int);
            lemma_mul_basics(other.num as int, self.den as int);
        }
        (self.num as i128) * (other.den as i128) < (other.num as i128) * (self.den as i128)
    }

    /// Value equality: `true` for `2/4` against `1/2`.
    pub fn equivalent(&self, other: &Rational) -> (r: bool)
        requires
            self.wf(),
            other.wf(),
        ensures
            r == rat_eq(self@, other@),
    {
        proof {
            lemma_mul_basics(self.num as int, other.den as int);
            lemma_mul_basics(other.num as int, self.den as int);
        }
        (self.num as i128) * (other.den as i128) == (other.num as i128) * (self.den as i128)
    }

    /// Exact sum; `None` exactly when it does not fit.
    pub fn add(&self, other: &Rational) -> (r: Option<Rational>)
        requires
            self.wf(),
            other.wf(),
        ensures
            r is Some <==> rat_fits(rat_add(self@, other@)),
            r matches Some(c) ==> c.wf() && c@ == rat_add(self@, other@),
    {
        proof {
            lemma_mul_basics(self.num as int, other.den as int);
            lemma_mul_basics(other.num as int, self.den as int);
            lemma_mul_basics(self.den as int, other.den as int);
        }
        let n: i128 = (self.num as i128) * (other.den as i128) + (other.num as i128) * (self.den
            as i128);
        let d: i128 = (self.den as i128) * (other.den as i128);
        Rational::from_i128(n, d)
    }

    /// Exact difference; `None` exactly when it does not fit.
    pub fn sub(&self, other: &Rational) -> (r: Option<Rational>)
        requires
            self.wf(),
            other.wf(),
        ensures
            r is Some <==> rat_fits(rat_sub(self@, other@)),
            r matches Some(c) ==> c.wf() && c@ == rat_sub(self@, other@),
    {
        proof {
            lemma_mul_basics(self.num as int, other.den as int);
            lemma_mul_basics(other.num as int, self.den as int);
            lemma_mul_basics(self.den as int, other.den as int);
        }
        let n: i128 = (self.num as i128) * (other.den as i128) - (other.num as i128) * (self.den
            as i128);
        let d: i128 = (self.den as i128) * (other.den as i128);
        Rational::from_i128(n, d)
    }

    /// Exact product; `None` exactly when it does not fit.
    pub fn mul(&self, other: &Rational) -> (r: Option<Rational>)
        requires
            self.wf(),
            other.wf(),
        ensures
            r is Some <==> rat_fits(rat_mul(self@, other@)),
            r matches Some(c) ==> c.wf() && c@ == rat_mul(self@, other@),
    {
        proof {
            lemma_mul_basics(self.num as int, other.num as int);
            lemma_mul_basics(self.den as int, other.den as int);
        }
        let n: i128 = (self.num as i128) * (other.num as i128);
        let d: i128 = (self.den as i128) * (other.den as i128);
        Rational::from_i128(n, d)
    }

    /// Exact quotient, defined for a non-zero divisor; `None` exactly when it
    /// does not fit.
    pub fn div(&self, other: &Rational) -> (r: Option<Rational>)
        requires
            self.wf(),
            other.wf(),
            !rat_is_zero(other@),
        ensures
            r is Some <==> rat_fits(rat_div(self@, other@)),
            r matches Some(c) ==> c.wf() && c@ == rat_div(self@, other@),
    {
        proof {
            lemma_mul_basics(self.num as int, other.den as int);
            lemma_mul_basics(self.den as int, other.num as int);
        }
        let n: i128 = (self.num as i128) * (other.den as i128);
        let d: i128 = (self.den as i128) * (other.num as i128);
        if other.num > 0 {
            Rational::from_i128(n, d)
        } else {
            Rational::from_i128(-n, -d)
        }
    }

    /// Exact negation; `None` exactly when it does not fit.
    pub fn neg(&self) -> (r: Option<Rational>)
        requires
            self.wf(),
        ensures
            r is Some <==> rat_fits(rat_neg(self@)),
            r matches Some(c) ==> c.wf() && c@ == rat_neg(self@),
    {
        Rational::from_i128(-(self.num as i128), self.den as i128)
    }

    /// Exact absolute value; `None` exactly when it does not fit.
    pub fn abs(&self) -> (r: Option<Rational>)
        requires
            self.wf(),
        ensures
            r is Some <==> rat_fits(rat_abs(self@)),
            r matches Some(c) ==> c.wf() && c@ == rat_abs(self@),
    {
        if self.num >= 0 {
            Rational::from_i128(self.num as i128, self.den as i128)
        } else {
            Rational::from_i128(-(self.num as i128), self.den as i128)
        }
    }

    /// The larger of the two values (the other one on value equality).
    pub fn max_with(&self, other: &Rational) -> (r: Rational)
        requires
            self.wf(),
            other.wf(),
        ensures
            r.wf(),
            r@ == rat_max(self@, other@),
    {
        if self.le(other) {
            *other
        } else {
            *self
        }
    }
}

} // verus!
