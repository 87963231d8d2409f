//! The scalar the solver computes with: an exact rational number.
//!
//! The solver needs a field-like numeric type with addition, subtraction,
//! multiplication, division, an absolute value, a zero and equality. Here
//! that type is [`Scalar`], an arbitrary-precision rational backed by
//! `num::BigRational`, together with a ghost fraction [`Frac`] that states
//! which number a `Scalar` holds; every contract of the crate speaks of
//! those fractions.

use vstd::prelude::*;

verus! {

/// The mathematical value of a scalar: the fraction `num / den`.
///
/// A well-formed fraction keeps `den > 0` (see [`frac_wf`]). Fractions are
/// not reduced; two of them denote the same number exactly when [`frac_eq`]
/// holds.
pub ghost struct Frac {
    pub num: int,
    pub den: int,
}

/// Well-formedness of a fraction: a positive denominator.
pub open spec fn frac_wf(a: Frac) -> bool {
    a.den > 0
}

/// The fraction of the integer `n`.
pub open spec fn frac_int(n: int) -> Frac {
    Frac { num: n, den: 1 }
}

/// Exact sum of two fractions.
pub open spec fn frac_add(a: Frac, b: Frac) -> Frac {
    Frac { num: a.num * b.den + b.num * a.den, den: a.den * b.den }
}

/// Exact difference of two fractions.
pub open spec fn frac_sub(a: Frac, b: Frac) -> Frac {
    Frac { num: a.num * b.den - b.num * a.den, den: a.den * b.den }
}

/// Exact product of two fractions.
pub open spec fn frac_mul(a: Frac, b: Frac) -> Frac {
    Frac { num: a.num * b.num, den: a.den * b.den }
}

/// Exact quotient `a / b`, with the sign kept on the numerator so that a
/// well-formed result again has a positive denominator. Meaningful only
/// when `b` is not zero.
pub open spec fn frac_div(a: Frac, b: Frac) -> Frac {
    if b.num >= 0 {
        Frac { num: a.num * b.den, den: a.den * b.num }
    } else {
        Frac { num: -(a.num * b.den), den: -(a.den * b.num) }
    }
}

/// Exact absolute value of a well-formed fraction.
pub open spec fn frac_abs(a: Frac) -> Frac {
    if a.num >= 0 {
        a
    } else {
        Frac { num: -a.num, den: a.den }
    }
}

/// Whether a well-formed fraction denotes zero.
pub open spec fn frac_is_zero(a: Frac) -> bool {
    a.num == 0
}

/// Whether two well-formed fractions denote the same number.
pub open spec fn frac_eq(a: Frac, b: Frac) -> bool {
    a.num * b.den == b.num * a.den
}

/// A sum of well-formed fractions is well-formed.
pub broadcast proof fn lemma_frac_add_wf(a: Frac, b: Frac)
    requires
        frac_wf(a),
        frac_wf(b),
    ensures
        frac_wf(#[trigger] frac_add(a, b)),
{
    assert(a.den * b.den > 0) by (nonlinear_arith)
        requires
            a.den > 0,
            b.den > 0,
    ;
}

/// A difference of well-formed fractions is well-formed.
pub broadcast proof fn lemma_frac_sub_wf(a: Frac, b: Frac)
    requires
        frac_wf(a),
        frac_wf(b),
    ensures
        frac_wf(#[trigger] frac_sub(a, b)),
{
    assert(a.den * b.den > 0) by (nonlinear_arith)
        requires
            a.den > 0,
            b.den > 0,
    ;
}

/// A product of well-formed fractions is well-formed.
pub broadcast proof fn lemma_frac_mul_wf(a: Frac, b: Frac)
    requires
        frac_wf(a),
        frac_wf(b),
    ensures
        frac_wf(#[trigger] frac_mul(a, b)),
{
    assert(a.den * b.den > 0) by (nonlinear_arith)
        requires
            a.den > 0,
            b.den > 0,
    ;
}

/// A quotient of well-formed fractions is well-formed when the divisor is
/// not zero.
pub broadcast proof fn lemma_frac_div_wf(a: Frac, b: Frac)
    requires
        frac_wf(a),
        frac_wf(b),
        !frac_is_zero(b),
    ensures
        frac_wf(#[trigger] frac_div(a, b)),
{
    if b.num >= 0 {
        assert(a.den * b.num > 0) by (nonlinear_arith)
            requires
                a.den > 0,
                b.num > 0,
        ;
    } else {
        assert(-(a.den * b.num) > 0) by (nonlinear_arith)
            requires
                a.den > 0,
                b.num < 0,
        ;
    }
}

#[verifier::external_type_specification]
#[verifier::external_body]
#[verifier::reject_recursive_types(T)]
pub struct ExRatio<T>(num::rational::Ratio<T>);

#[verifier::external_type_specification]
#[verifier::external_body]
pub struct ExBigInt(num::bigint::BigInt);

/// An exact rational scalar.
///
/// `inner` carries the number at run time; `frac` is its ghost fraction,
/// pinned by the contracts of the constructors and operations below. The
/// field `inner` is public so that unverified display code outside the
/// library can render the number; the library itself reads it only inside
/// its trusted wrappers.
pub struct Scalar {
    pub inner: num::BigRational,
    pub frac: Ghost<Frac>,
}

impl Scalar {
    /// Well-formedness: the ghost fraction has a positive denominator.
    pub open spec fn wf(self) -> bool {
        frac_wf(self.frac@)
    }

    /// Relies on `num::Zero::zero` for `Ratio`: the value `0 / 1`.
    #[verifier::external_body]
    pub fn zero() -> (r: Scalar)
        ensures
            r.frac@ == frac_int(0),
    {
        Scalar { inner: num::Zero::zero(), frac: Ghost(arbitrary()) }
    }

    /// Relies on `Ratio::from_integer`: the value `n / 1`.
    #[verifier::external_body]
    pub fn from_int(n: i64) -> (r: Scalar)
        ensures
            r.frac@ == frac_int(n as int),
    {
        Scalar { inner: num::BigRational::from_integer(num::bigint::BigInt::from(n)), frac: Ghost(arbitrary()) }
    }

    /// Relies on `Ratio::new`: the value `n / d`, which panics when `d` is
    /// zero, hence the precondition.
    #[verifier::external_body]
    pub fn from_fraction(n: i64, d: i64) -> (r: Scalar)
        requires
            d != 0,
        ensures
            r.frac@ == (if d > 0 {
                Frac { num: n as int, den: d as int }
            } else {
                Frac { num: -(n as int), den: -(d as int) }
            }),
    {
        Scalar { inner: num::BigRational::new(num::bigint::BigInt::from(n), num::bigint::BigInt::from(d)), frac: Ghost(arbitrary()) }
    }

    /// Relies on `Add` for `&Ratio`: exact rational addition.
    #[verifier::external_body]
    pub(crate) fn add(&self, other: &Scalar) -> (r: Scalar)
        requires
            self.wf(),
            other.wf(),
        ensures
            r.frac@ == frac_add(self.frac@, other.frac@),
    {
        Scalar { inner: &self.inner + &other.inner, frac: Ghost(arbitrary()) }
    }

    /// Relies on `Sub` for `&Ratio`: exact rational subtraction.
    #[verifier::external_body]
    pub(crate) fn sub(&self, other: &Scalar) -> (r: Scalar)
        requires
            self.wf(),
            other.wf(),
        ensures
            r.frac@ == frac_sub(self.frac@, other.frac@),
    {
        Scalar { inner: &self.inner - &other.inner, frac: Ghost(arbitrary()) }
    }

    /// Relies on `Mul` for `&Ratio`: exact rational multiplication.
    #[verifier::external_body]
    pub(crate) fn mul(&self, other: &Scalar) -> (r: Scalar)
        requires
            self.wf(),
            other.wf(),
        ensures
            r.frac@ == frac_mul(self.frac@, other.frac@),
    {
        Scalar { inner: &self.inner * &other.inner, frac: Ghost(arbitrary()) }
    }

    /// Relies on `Div` for `&Ratio`: exact rational division, which panics
    /// when the divisor is zero, hence the precondition.
    #[verifier::external_body]
    pub(crate) fn div(&self, other: &Scalar) -> (r: Scalar)
        requires
            self.wf(),
            other.wf(),
            !frac_is_zero(other.frac@),
        ensures
            r.frac@ == frac_div(self.frac@, other.frac@),
    {
        Scalar { inner: &self.inner / &other.inner, frac: Ghost(arbitrary()) }
    }

    /// Relies on `num::Signed::abs` for `Ratio`: exact absolute value.
    #[verifier::external_body]
    pub fn abs(&self) -> (r: Scalar)
        requires
            self.wf(),
        ensures
            r.frac@ == frac_abs(self.frac@),
    {
        Scalar { inner: num::traits::Signed::abs(&self.inner), frac: Ghost(arbitrary()) }
    }

    /// Relies on `num::Zero::is_zero` for `Ratio`: true exactly when the
    /// number is zero.
    #[verifier::external_body]
    pub fn is_zero(&self) -> (r: bool)
        requires
            self.wf(),
        ensures
            r == frac_is_zero(self.frac@),
    {
        num::Zero::is_zero(&self.inner)
    }

    /// Relies on `PartialEq` for `Ratio`, which compares the numbers, not
    /// the representations.
    #[verifier::external_body]
    pub fn eq_value(&self, other: &Scalar) -> (r: bool)
        requires
            self.wf(),
            other.wf(),
        ensures
            r == frac_eq(self.frac@, other.frac@),
    {
        self.inner == other.inner
    }
}

impl Clone for Scalar {
    /// Relies on `Clone` for `Ratio`: the copy holds the same number.
    #[verifier::external_body]
    fn clone(&self) -> (r: Self)
        ensures
            r.frac@ == self.frac@,
    {
        Scalar { inner: self.inner.clone(), frac: Ghost(arbitrary()) }
    }
}

} // verus!
