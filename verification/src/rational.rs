use vstd::prelude::*;

verus! {

/// Errors of the exact scalar arithmetic.  Magnitudes are 64-bit rationals,
/// so an operation fails when the exact result does not fit, and division
/// fails on a zero divisor.
#[derive(Clone, Copy, Debug, PartialEq, Eq, Structural)]
pub enum ArithError {
    Overflow,
    DivisionByZero,
}

/// An exact scalar magnitude: the rational number `num / den`.
///
/// A well-formed value keeps `den > 0`; the sign lives in `num`.
/// Two values stand for the same number when they cross-multiply equally
/// (`rat_eq`); representations are not reduced, so `1/2` and `2/4` are
/// distinct values of the same number.
#[derive(Clone, Copy, Debug, PartialEq, Eq, Structural)]
pub struct Rational {
    pub num: i64,
    pub den: i64,
}

/// Well-formedness: a positive denominator.
pub open spec fn rat_wf(r: Rational) -> bool {
    r.den > 0
}

/// `a` and `b` stand for the same rational number.
pub open spec fn rat_eq(a: Rational, b: Rational) -> bool {
    (a.num as int) * (b.den as int) == (b.num as int) * (a.den as int)
}

/// The exact result fits the 64-bit representation.
pub open spec fn i64_fits(x: int) -> bool {
    i64::MIN <= x <= i64::MAX
}

/// Exact sum: `a/b + c/d == (a*d + c*b) / (b*d)`, or overflow when a
/// component of that representation leaves the 64-bit range.
pub open spec fn spec_rat_add(a: Rational, b: Rational) -> Result<Rational, ArithError> {
    let n = a.num * b.den + b.num * a.den;
    let d = a.den * b.den;
    if i64_fits(n) && i64_fits(d) {
        Ok(Rational { num: n as i64, den: d as i64 })
    } else {
        Err(ArithError::Overflow)
    }
}

/// Exact difference, as `spec_rat_add`.
pub open spec fn spec_rat_sub(a: Rational, b: Rational) -> Result<Rational, ArithError> {
    let n = a.num * b.den - b.num * a.den;
    let d = a.den * b.den;
    if i64_fits(n) && i64_fits(d) {
        Ok(Rational { num: n as i64, den: d as i64 })
    } else {
        Err(ArithError::Overflow)
    }
}

/// Exact product: numerators and denominators multiply.
pub open spec fn spec_rat_mul(a: Rational, b: Rational) -> Result<Rational, ArithError> {
    let n = a.num * b.num;
    let d = a.den * b.den;
    if i64_fits(n) && i64_fits(d) {
        Ok(Rational { num: n as i64, den: d as i64 })
    } else {
        Err(ArithError::Overflow)
    }
}

/// Exact quotient: multiplication by the inverse, with the sign moved into
/// the numerator so that the result stays well-formed.  A zero divisor is
/// an error.
pub open spec fn spec_rat_div(a: Rational, b: Rational) -> Result<Rational, ArithError> {
    if b.num == 0 {
        Err(ArithError::DivisionByZero)
    } else {
        let n0 = a.num * b.den;
        let d0 = a.den * b.num;
        let n = if b.num < 0 { -n0 } else { n0 };
        let d = if b.num < 0 { -d0 } else { d0 };
        if i64_fits(n) && i64_fits(d) {
            Ok(Rational { num: n as i64, den: d as i64 })
        } else {
            Err(ArithError::Overflow)
        }
    }
}

/// Bound on a product of two 64-bit factors: it always fits 128 bits, with
/// room to spare for one addition.
proof fn lemma_mul_i64_bound(x: int, y: int)
    requires
        i64::MIN <= x <= i64::MAX,
        i64::MIN <= y <= i64::MAX,
    ensures
        -0x4000_0000_0000_0000_0000_0000_0000_0000 <= x * y
            <= 0x4000_0000_0000_0000_0000_0000_0000_0000,
    {
        assert(-0x4000_0000_0000_0000_0000_0000_0000_0000 <= x * y
            <= 0x4000_0000_0000_0000_0000_0000_0000_0000) by (nonlinear_arith)
            requires
                -0x8000_0000_0000_0000 <= x <= 0x7fff_ffff_ffff_ffff,
                -0x8000_0000_0000_0000 <= y <= 0x7fff_ffff_ffff_ffff,
        ;
    }

/// Tighter bound when the second factor is a well-formed denominator:
/// the magnitude stays below `2^126 - 2^63`, so two such products can be
/// added without leaving 128 bits.
proof fn lemma_mul_num_den_bound(x: int, y: int)
    requires
        i64::MIN <= x <= i64::MAX,
        1 <= y <= i64::MAX,
    ensures
        -0x3fff_ffff_ffff_ffff_8000_0000_0000_0000 <= x * y
            <= 0x3fff_ffff_ffff_ffff_8000_0000_0000_0000,
    {
        assert(-0x3fff_ffff_ffff_ffff_8000_0000_0000_0000 <= x * y
            <= 0x3fff_ffff_ffff_ffff_8000_0000_0000_0000) by (nonlinear_arith)
            requires
                -0x8000_0000_0000_0000 <= x <= 0x7fff_ffff_ffff_ffff,
                1 <= y <= 0x7fff_ffff_ffff_ffff,
        ;
    }

/// A product of well-formed denominators is positive.
proof fn lemma_mul_pos(x: int, y: int)
    requires
        x > 0,
        y > 0,
    ensures
        x * y > 0,
{
    assert(x * y > 0) by (nonlinear_arith)
        requires
            x > 0,
            y > 0,
    ;
}

impl Rational {
    /// The rational number `num / den`.
    pub fn new(num: i64, den: i64) -> (r: Rational)
        requires
            den > 0,
        ensures
            r == (Rational { num, den }),
            rat_wf(r),
    {
        Rational { num, den }
    }

    /// The whole number `n`.
    pub fn from_int(n: i64) -> (r: Rational)
        ensures
            r == (Rational { num: n, den: 1 }),
            rat_wf(r),
    {
        Rational { num: n, den: 1 }
    }

    /// Whether the value is exactly zero.
    pub fn is_zero(&self) -> (r: bool)
        ensures
            r == (self.num == 0),
    {
        self.num == 0
    }

    /// Whether `self` and `other` stand for the same number, whatever their
    /// representations.
    pub fn same_value(&self, other: &Rational) -> (r: bool)
        requires
            rat_wf(*self),
            rat_wf(*other),
        ensures
            r == rat_eq(*self, *other),
    {
        proof {
            lemma_mul_i64_bound(self.num as int, other.den as int);
            lemma_mul_i64_bound(other.num as int, self.den as int);
        }
        (self.num as i128) * (other.den as i128) == (other.num as i128) * (self.den as i128)
    }

    /// Exact addition; see `spec_rat_add`.
    pub fn add(self, rhs: Rational) -> (r: Result<Rational, ArithError>)
        requires
            rat_wf(self),
            rat_wf(rhs),
        ensures
            r == spec_rat_add(self, rhs),
            r is Ok ==> rat_wf(r->Ok_0),
    {
        proof {
            lemma_mul_num_den_bound(self.num as int, rhs.den as int);
            lemma_mul_num_den_bound(rhs.num as int, self.den as int);
            lemma_mul_i64_bound(self.den as int, rhs.den as int);
            lemma_mul_pos(self.den as int, rhs.den as int);
        }
        let n: i128 = (self.num as i128) * (rhs.den as i128) + (rhs.num as i128)
            * (self.den as i128);
        let d: i128 = (self.den as i128) * (rhs.den as i128);
        if fits_i64(n) && fits_i64(d) {
            Ok(Rational { num: n as i64, den: d as i64 })
        } else {
            Err(ArithError::Overflow)
        }
    }

    /// Exact subtraction; see `spec_rat_sub`.
    pub fn sub(self, rhs: Rational) -> (r: Result<Rational, ArithError>)
        requires
            rat_wf(self),
            rat_wf(rhs),
        ensures
            r == spec_rat_sub(self, rhs),
            r is Ok ==> rat_wf(r->Ok_0),
    {
        proof {
            lemma_mul_num_den_bound(self.num as int, rhs.den as int);
            lemma_mul_num_den_bound(rhs.num as int, self.den as int);
            lemma_mul_i64_bound(self.den as int, rhs.den as int);
            lemma_mul_pos(self.den as int, rhs.den as int);
        }
        let n: i128 = (self.num as i128) * (rhs.den as i128) - (rhs.num as i128)
            * (self.den as i128);
        let d: i128 = (self.den as i128) * (rhs.den as i128);
        if fits_i64(n) && fits_i64(d) {
            Ok(Rational { num: n as i64, den: d as i64 })
        } else {
            Err(ArithError::Overflow)
        }
    }

    /// Exact multiplication; see `spec_rat_mul`.
    pub fn mul(self, rhs: Rational) -> (r: Result<Rational, ArithError>)
        requires
            rat_wf(self),
            rat_wf(rhs),
        ensures
            r == spec_rat_mul(self, rhs),
            r is Ok ==> rat_wf(r->Ok_0),
    {
        proof {
            lemma_mul_i64_bound(self.num as int, rhs.num as int);
            lemma_mul_i64_bound(self.den as int, rhs.den as int);
            lemma_mul_pos(self.den as int, rhs.den as int);
        }
        let n: i128 = (self.num as i128) * (rhs.num as i128);
        let d: i128 = (self.den as i128) * (rhs.den as i128);
        if fits_i64(n) && fits_i64(d) {
            Ok(Rational { num: n as i64, den: d as i64 })
        } else {
            Err(ArithError::Overflow)
        }
    }

    /// Exact division; see `spec_rat_div`.
    pub fn div(self, rhs: Rational) -> (r: Result<Rational, ArithError>)
        requires
            rat_wf(self),
            rat_wf(rhs),
        ensures
            r == spec_rat_div(self, rhs),
            r is Ok ==> rat_wf(r->Ok_0),
    {
        if rhs.num == 0 {
            return Err(ArithError::DivisionByZero);
        }
        proof {
            lemma_mul_i64_bound(self.num as int, rhs.den as int);
            lemma_mul_i64_bound(self.den as int, rhs.num as int);
            if rhs.num > 0 {
                lemma_mul_pos(self.den as int, rhs.num as int);
            } else {
                lemma_mul_pos(self.den as int, -(rhs.num as int));
                assert((self.den as int) * -(rhs.num as int) == -((self.den as int) * (
                rhs.num as int))) by (nonlinear_arith);
            }
        }
        let n0: i128 = (self.num as i128) * (rhs.den as i128);
        let d0: i128 = (self.den as i128) * (rhs.num as i128);
        let n: i128 = if rhs.num < 0 {
            -n0
        } else {
            n0
        };
        let d: i128 = if rhs.num < 0 {
            -d0
        } else {
            d0
        };
        if fits_i64(n) && fits_i64(d) {
            Ok(Rational { num: n as i64, den: d as i64 })
        } else {
            Err(ArithError::Overflow)
        }
    }
}

/// Whether a 128-bit intermediate fits back into 64 bits.
pub(crate) fn fits_i64(x: i128) -> (r: bool)
    ensures
        r == i64_fits(x as int),
{
    i64::MIN as i128 <= x && x <= i64::MAX as i128
}

} // verus!
