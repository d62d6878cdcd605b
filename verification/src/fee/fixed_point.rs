//! Unsigned fixed point numbers with eighteen decimal places.
use vstd::prelude::*;

verus! {

/// The number of units that make one: ten to the power eighteen.
pub const DIV: u128 = 1_000_000_000_000_000_000;

/// The number of units that make one, as a mathematical number.
pub open spec fn unit() -> nat {
    DIV as nat
}

/// An unsigned fixed point number: `inner` counts units of one part in `DIV`.
#[derive(Clone, Copy, Debug, PartialEq, Eq, Structural, PartialOrd, Ord, Hash, Default)]
pub struct FixedU128 {
    pub inner: u128,
}

/// The product of two numbers given in units, in units, the fraction of a
/// unit dropped.
pub open spec fn mul_floor(a: nat, b: nat) -> nat {
    (a * b) / (DIV as nat)
}

/// The number of whole ones that cover `a` units: the smallest integer that
/// is not below the number.
pub open spec fn whole_units_up(a: nat) -> nat {
    a / (DIV as nat) + if a % (DIV as nat) == 0 {
        0nat
    } else {
        1nat
    }
}

/// The smallest whole number, in units, that is not below `a`, where one more
/// than `a` is a fixed point number; else the largest whole fixed point
/// number, which may be below `a`.
pub open spec fn saturating_ceil(a: nat) -> nat {
    if a % (DIV as nat) == 0 {
        a
    } else if a + (DIV as nat) > u128::MAX {
        ((u128::MAX as nat) / (DIV as nat)) * (DIV as nat)
    } else {
        ((a + (DIV as nat)) / (DIV as nat)) * (DIV as nat)
    }
}

/// The product of a number given in units and an integer, the fraction
/// dropped, and not above the largest integer.
pub open spec fn mul_int_saturating(a: nat, n: nat) -> nat {
    if (a * n) / (DIV as nat) > u128::MAX {
        u128::MAX as nat
    } else {
        (a * n) / (DIV as nat)
    }
}

impl FixedU128 {
    /// The number with the given count of units.
    pub fn from_inner(inner: u128) -> (r: FixedU128)
        ensures
            r.inner == inner,
    {
        FixedU128 { inner }
    }

    /// The count of units.
    pub fn into_inner(self) -> (r: u128)
        ensures
            r == self.inner,
    {
        self.inner
    }

    /// Zero.
    pub fn zero() -> (r: FixedU128)
        ensures
            r.inner == 0,
    {
        FixedU128 { inner: 0 }
    }

    /// Calls `sp_arithmetic::FixedU128::checked_from_integer`, which multiplies
    /// the integer by `DIV` and gives `None` where the product does not fit.
    #[verifier::external_body]
    pub(crate) fn checked_from_integer(n: u128) -> (r: Option<FixedU128>)
        ensures
            r == (if n * DIV <= u128::MAX {
                Some(FixedU128 { inner: (n * DIV) as u128 })
            } else {
                None
            }),
    {
        <sp_arithmetic::FixedU128 as sp_arithmetic::FixedPointNumber>::checked_from_integer(n)
            .map(|x| FixedU128 { inner: x.into_inner() })
    }

    /// Calls `CheckedMul::checked_mul` of `sp_arithmetic::FixedU128`, which
    /// drops the fraction of a unit from the product and gives `None` where
    /// the product does not fit.
    #[verifier::external_body]
    pub(crate) fn checked_mul(self, rhs: FixedU128) -> (r: Option<FixedU128>)
        ensures
            r == (if mul_floor(self.inner as nat, rhs.inner as nat) <= u128::MAX {
                Some(FixedU128 { inner: mul_floor(self.inner as nat, rhs.inner as nat) as u128 })
            } else {
                None
            }),
    {
        let x = sp_arithmetic::FixedU128::from_inner(self.inner);
        let y = sp_arithmetic::FixedU128::from_inner(rhs.inner);
        sp_arithmetic::traits::CheckedMul::checked_mul(&x, &y)
            .map(|z| FixedU128 { inner: z.into_inner() })
    }

    /// Calls `sp_arithmetic::FixedU128::ceil`, which gives the number itself
    /// where it is whole, and else adds one, stopping at the largest number,
    /// and drops the fraction: above the largest whole number it rounds down.
    #[verifier::external_body]
    pub(crate) fn ceil(self) -> (r: FixedU128)
        ensures
            r.inner == saturating_ceil(self.inner as nat),
    {
        let x = sp_arithmetic::FixedU128::from_inner(self.inner);
        FixedU128 { inner: sp_arithmetic::FixedPointNumber::ceil(x).into_inner() }
    }

    /// Calls `sp_arithmetic::FixedU128::saturating_mul_int`, which multiplies
    /// by an integer, drops the fraction, and gives the largest integer where
    /// the product does not fit.
    #[verifier::external_body]
    pub(crate) fn saturating_mul_int(self, n: u128) -> (r: u128)
        ensures
            r == mul_int_saturating(self.inner as nat, n as nat),
    {
        let x = sp_arithmetic::FixedU128::from_inner(self.inner);
        sp_arithmetic::FixedPointNumber::saturating_mul_int(x, n)
    }

    /// The sum, or `None` where it does not fit.
    pub fn checked_add(self, rhs: FixedU128) -> (r: Option<FixedU128>)
        ensures
            r == (if self.inner + rhs.inner <= u128::MAX {
                Some(FixedU128 { inner: (self.inner + rhs.inner) as u128 })
            } else {
                None
            }),
    {
        match self.inner.checked_add(rhs.inner) {
            Some(inner) => Some(FixedU128 { inner }),
            None => None,
        }
    }

    /// The larger of two numbers.
    pub fn max(self, other: FixedU128) -> (r: FixedU128)
        ensures
            r.inner == (if self.inner >= other.inner {
                self.inner
            } else {
                other.inner
            }),
    {
        if self.inner >= other.inner {
            self
        } else {
            other
        }
    }
}

/// The product of a whole number and a number given in units has no fraction
/// of a unit to drop.
pub proof fn lemma_mul_floor_of_whole(n: nat, b: nat)
    ensures
        mul_floor(n * unit(), b) == n * b,
{
    let d = DIV as int;
    let (n, b) = (n as int, b as int);
    assert(((n * d) * b) / d == n * b) by (nonlinear_arith)
        requires
            d > 0,
    ;
}

/// Where a number is not above the largest whole fixed point number, the
/// whole number that `saturating_ceil` gives is the smallest that is not below
/// it.
pub proof fn lemma_saturating_ceil_is_exact(a: nat)
    requires
        a <= ((u128::MAX as nat) / unit()) * unit(),
    ensures
        saturating_ceil(a) == whole_units_up(a) * unit(),
{
    let d = DIV as int;
    let m = u128::MAX as int;
    let x = a as int;
    let q = m / d;
    assert(q * d <= m && m < q * d + d) by (nonlinear_arith)
        requires
            q == m / d,
            d > 0,
    ;
    if x % d == 0 {
        assert(x == (x / d) * d) by (nonlinear_arith)
            requires
                x % d == 0,
                d > 0,
        ;
    } else if x + d > m {
        assert(x / d + 1 == q) by (nonlinear_arith)
            requires
                x <= q * d,
                x % d != 0,
                x + d > m,
                q * d <= m,
                d > 0,
                x >= 0,
        ;
    } else {
        assert((x + d) / d == x / d + 1) by (nonlinear_arith)
            requires
                d > 0,
                x >= 0,
        ;
    }
}

/// A whole number of units times an integer, as the fixed point multiplies
/// it: the product of the two, and not above the largest integer.
pub proof fn lemma_mul_int_of_whole(k: nat, n: nat)
    ensures
        mul_int_saturating(k * unit(), n) == (if k * n > u128::MAX {
            u128::MAX as nat
        } else {
            k * n
        }),
{
    let d = DIV as int;
    let (k, n) = (k as int, n as int);
    assert(((k * d) * n) / d == k * n) by (nonlinear_arith)
        requires
            d > 0,
    ;
}

} // verus!
